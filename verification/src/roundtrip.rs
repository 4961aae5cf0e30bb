//! Encoding and decoding undo each other: a data packet encoded with
//! `encode_data_packet` decodes to the same packet, and a text packet to
//! the same text.

use vstd::bytes::{lemma_auto_spec_u16_to_from_le_bytes, lemma_auto_spec_u32_to_from_le_bytes, lemma_auto_spec_u64_to_from_le_bytes};
use vstd::prelude::*;
use vstd::utf8::{encode_utf8, encode_utf8_decode_utf8, encode_utf8_valid_utf8};

use crate::components::{spec_component_data, spec_rated_list, whole};
use crate::decode::{rd_component, spec_data_packet, spec_framed_packet, DecodeFailure};
use crate::encode::{WireEncode, enc_point3, enc_rated, enc_seq, enc_words, spec_encode_component, spec_encode_component_data, spec_encode_components, spec_encode_data_packet, spec_encode_framed, w16, w32, w64, wi32};
use crate::packet::{SkeletonSegment, Body6D, Body6DEuler, Body6DEulerModel, Body6DEulerResidual, Body6DEulerResidualModel, Body6DModel, Body6DResidual, Body6DResidualModel, Component, ComponentDataModel, ComponentModel, DataPacketModel, PacketModel, Point3, Point3NoLabel, RatedListModel};
use crate::protocol::{ComponentType, PacketType};
use crate::records::{point3_at, u32s_at, WireRecord};
use crate::wire::{fits, le_i16, le_i32, le_u32, le_u64, repeat, Read};

verus! {

/// `x` lies in `s` at offset `o`.
pub open spec fn at(s: Seq<u8>, o: int, x: Seq<u8>) -> bool {
    0 <= o && o + x.len() <= s.len() && s.subrange(o, o + x.len()) == x
}

proof fn lemma_at_split(s: Seq<u8>, o: int, a: Seq<u8>, b: Seq<u8>)
    requires
        at(s, o, a + b),
    ensures
        at(s, o, a),
        at(s, o + a.len(), b),
{
    let ab = s.subrange(o, o + a.len() + b.len());
    assert(ab == a + b);
    assert(s.subrange(o, o + a.len()) =~= ab.subrange(0, a.len() as int));
    assert(ab.subrange(0, a.len() as int) =~= a);
    assert(s.subrange(o + a.len(), o + a.len() + b.len()) =~= ab.subrange(
        a.len() as int,
        (a.len() + b.len()) as int,
    ));
    assert(ab.subrange(a.len() as int, (a.len() + b.len()) as int) =~= b);
}

proof fn lemma_widths()
    ensures
        forall|v: u32| #[trigger] w32(v).len() == 4,
        forall|v: i32| #[trigger] wi32(v).len() == 4,
        forall|v: i16| #[trigger] w16(v).len() == 2,
        forall|v: u64| #[trigger] w64(v).len() == 8,
{
    lemma_auto_spec_u32_to_from_le_bytes();
    lemma_auto_spec_u16_to_from_le_bytes();
    lemma_auto_spec_u64_to_from_le_bytes();
}

proof fn lemma_read_u32(s: Seq<u8>, o: int, v: u32)
    requires
        at(s, o, w32(v)),
    ensures
        le_u32(s, o) == v,
        fits(s, o, 4),
{
    lemma_auto_spec_u32_to_from_le_bytes();
}

proof fn lemma_read_i32(s: Seq<u8>, o: int, v: i32)
    requires
        at(s, o, wi32(v)),
    ensures
        le_i32(s, o) == v,
        le_u32(s, o) == v as u32,
        fits(s, o, 4),
{
    lemma_auto_spec_u32_to_from_le_bytes();
    assert(((v as u32) as i32) == v) by (bit_vector);
}

proof fn lemma_read_i16(s: Seq<u8>, o: int, v: i16)
    requires
        at(s, o, w16(v)),
    ensures
        le_i16(s, o) == v,
        fits(s, o, 2),
{
    lemma_auto_spec_u16_to_from_le_bytes();
    assert(((v as u16) as i16) == v) by (bit_vector);
}

proof fn lemma_read_u64(s: Seq<u8>, o: int, v: u64)
    requires
        at(s, o, w64(v)),
    ensures
        le_u64(s, o) == v,
        fits(s, o, 8),
{
    lemma_auto_spec_u64_to_from_le_bytes();
}

proof fn lemma_enc_words_len(ws: Seq<u32>)
    ensures
        enc_words(ws).len() == 4 * ws.len(),
    decreases ws.len(),
{
    lemma_widths();
    if ws.len() > 0 {
        lemma_enc_words_len(ws.drop_last());
    }
}

/// Words read back as the words that were written.
proof fn lemma_read_words(s: Seq<u8>, o: int, ws: Seq<u32>)
    requires
        at(s, o, enc_words(ws)),
    ensures
        u32s_at(s, o, ws.len()) == ws,
        fits(s, o, 4 * ws.len() as int),
    decreases ws.len(),
{
    lemma_widths();
    lemma_enc_words_len(ws);
    if ws.len() > 0 {
        let init = ws.drop_last();
        lemma_enc_words_len(init);
        lemma_at_split(s, o, enc_words(init), w32(ws.last()));
        lemma_read_words(s, o, init);
        lemma_read_u32(s, o + 4 * init.len(), ws.last());
        assert forall|i: int| 0 <= i < ws.len() implies u32s_at(s, o, ws.len())[i] == ws[i] by {
            if i < init.len() {
                assert(u32s_at(s, o, init.len())[i] == init[i]);
            }
        }
        assert(u32s_at(s, o, ws.len()) =~= ws);
    }
}

proof fn lemma_read_point3(s: Seq<u8>, o: int, p: Point3)
    requires
        at(s, o, enc_point3(p)),
    ensures
        point3_at(s, o) == p,
        fits(s, o, 12),
{
    lemma_widths();
    lemma_at_split(s, o, w32(p.x) + w32(p.y), w32(p.z));
    lemma_at_split(s, o, w32(p.x), w32(p.y));
    lemma_read_u32(s, o, p.x);
    lemma_read_u32(s, o + 4, p.y);
    lemma_read_u32(s, o + 8, p.z);
}

/// The item reader reads `x` back wherever its encoding lies.
pub open spec fn inverts<T>(
    item: spec_fn(Seq<u8>, int) -> Read<T>,
    f: spec_fn(T) -> Seq<u8>,
    x: T,
) -> bool {
    forall|s: Seq<u8>, o: int| #[trigger] at(s, o, f(x)) ==> item(s, o) == Some((x, o + f(x).len()))
}

/// A repetition reads back the items whose encodings lie one after the other.
proof fn lemma_repeat_enc<T>(
    s: Seq<u8>,
    o: int,
    xs: Seq<T>,
    f: spec_fn(T) -> Seq<u8>,
    item: spec_fn(Seq<u8>, int) -> Read<T>,
)
    requires
        forall|i: int| 0 <= i < xs.len() ==> inverts(item, f, #[trigger] xs[i]),
        at(s, o, enc_seq(xs, f)),
    ensures
        repeat(s, o, xs.len(), item) == Some((xs, o + enc_seq(xs, f).len())),
    decreases xs.len(),
{
    if xs.len() > 0 {
        let init = xs.drop_last();
        let last = xs.last();
        lemma_at_split(s, o, enc_seq(init, f), f(last));
        assert forall|i: int| 0 <= i < init.len() implies inverts(item, f, #[trigger] init[i]) by {
            assert(init[i] == xs[i]);
        }
        lemma_repeat_enc(s, o, init, f, item);
        assert(inverts(item, f, xs[xs.len() - 1]));
        let o1 = o + enc_seq(init, f).len();
        assert(at(s, o1, f(last)));
        assert(item(s, o1) == Some((last, o1 + f(last).len())));
        assert(((xs.len() - 1) as nat) == init.len());
        assert(init.push(last) =~= xs);
    } else {
        assert(xs =~= Seq::<T>::empty());
    }
}

proof fn lemma_point3_inverts(p: Point3)
    ensures
        inverts(Point3::record(), Point3::enc(), p),
{
    assert forall|s: Seq<u8>, o: int| #[trigger] at(s, o, Point3::enc()(p)) implies Point3::record()(
        s,
        o,
    ) == Some((p, o + Point3::enc()(p).len())) by {
        lemma_widths();
        lemma_read_point3(s, o, p);
    }
}

proof fn lemma_point3_nolabel_inverts(p: Point3NoLabel)
    ensures
        inverts(Point3NoLabel::record(), Point3NoLabel::enc(), p),
{
    assert forall|s: Seq<u8>, o: int| #[trigger] at(s, o, Point3NoLabel::enc()(p)) implies Point3NoLabel::record()(
        s,
        o,
    ) == Some((p, o + Point3NoLabel::enc()(p).len())) by {
        lemma_widths();
        lemma_at_split(s, o, w32(p.x) + w32(p.y) + w32(p.z), wi32(p.id));
        lemma_read_point3(s, o, Point3 { x: p.x, y: p.y, z: p.z });
        lemma_read_i32(s, o + 12, p.id);
    }
}

proof fn lemma_body6d_inverts(b: Body6DModel)
    requires
        b.rotation_matrix.len() == 9,
    ensures
        inverts(Body6D::record(), Body6D::enc(), b),
{
    assert forall|s: Seq<u8>, o: int| #[trigger] at(s, o, Body6D::enc()(b)) implies Body6D::record()(
        s,
        o,
    ) == Some((b, o + Body6D::enc()(b).len())) by {
        lemma_widths();
        lemma_enc_words_len(b.rotation_matrix);
        lemma_at_split(s, o, enc_point3(b.position), enc_words(b.rotation_matrix));
        lemma_read_point3(s, o, b.position);
        lemma_read_words(s, o + 12, b.rotation_matrix);
    }
}

proof fn lemma_body6d_residual_inverts(b: Body6DResidualModel)
    requires
        b.rotation_matrix.len() == 9,
    ensures
        inverts(Body6DResidual::record(), Body6DResidual::enc(), b),
{
    assert forall|s: Seq<u8>, o: int| #[trigger] at(s, o, Body6DResidual::enc()(b)) implies Body6DResidual::record()(
        s,
        o,
    ) == Some((b, o + Body6DResidual::enc()(b).len())) by {
        lemma_widths();
        lemma_enc_words_len(b.rotation_matrix);
        lemma_at_split(s, o, enc_point3(b.position) + enc_words(b.rotation_matrix), w32(b.residual));
        lemma_at_split(s, o, enc_point3(b.position), enc_words(b.rotation_matrix));
        lemma_read_point3(s, o, b.position);
        lemma_read_words(s, o + 12, b.rotation_matrix);
        lemma_read_u32(s, o + 48, b.residual);
    }
}

proof fn lemma_body6d_euler_inverts(b: Body6DEulerModel)
    requires
        b.euler.len() == 3,
    ensures
        inverts(Body6DEuler::record(), Body6DEuler::enc(), b),
{
    assert forall|s: Seq<u8>, o: int| #[trigger] at(s, o, Body6DEuler::enc()(b)) implies Body6DEuler::record()(
        s,
        o,
    ) == Some((b, o + Body6DEuler::enc()(b).len())) by {
        lemma_widths();
        lemma_enc_words_len(b.euler);
        lemma_at_split(s, o, enc_point3(b.position), enc_words(b.euler));
        lemma_read_point3(s, o, b.position);
        lemma_read_words(s, o + 12, b.euler);
    }
}

proof fn lemma_body6d_euler_residual_inverts(b: Body6DEulerResidualModel)
    requires
        b.euler.len() == 3,
    ensures
        inverts(Body6DEulerResidual::record(), Body6DEulerResidual::enc(), b),
{
    assert forall|s: Seq<u8>, o: int| #[trigger] at(s, o, Body6DEulerResidual::enc()(b)) implies Body6DEulerResidual::record()(
        s,
        o,
    ) == Some((b, o + Body6DEulerResidual::enc()(b).len())) by {
        lemma_widths();
        lemma_enc_words_len(b.euler);
        lemma_at_split(s, o, enc_point3(b.position) + enc_words(b.euler), w32(b.residual));
        lemma_at_split(s, o, enc_point3(b.position), enc_words(b.euler));
        lemma_read_point3(s, o, b.position);
        lemma_read_words(s, o + 12, b.euler);
        lemma_read_u32(s, o + 24, b.residual);
    }
}

/// A rated list reads back from its encoding.
proof fn lemma_rated_roundtrip<T>(
    l: RatedListModel<T>,
    signed: bool,
    f: spec_fn(T) -> Seq<u8>,
    item: spec_fn(Seq<u8>, int) -> Read<T>,
)
    requires
        forall|i: int| 0 <= i < l.items.len() ==> inverts(item, f, #[trigger] l.items[i]),
        signed ==> l.items.len() <= i32::MAX,
        !signed ==> l.items.len() <= u32::MAX,
    ensures
        spec_rated_list(
            enc_rated(
                if signed {
                    wi32(l.items.len() as i32)
                } else {
                    w32(l.items.len() as u32)
                },
                l.drop_rate,
                l.out_of_sync_rate,
                l.items,
                f,
            ),
            signed,
            item,
        ) == Some(l),
{
    lemma_widths();
    let count = if signed {
        wi32(l.items.len() as i32)
    } else {
        w32(l.items.len() as u32)
    };
    let body = enc_seq(l.items, f);
    let p = enc_rated(count, l.drop_rate, l.out_of_sync_rate, l.items, f);
    assert(at(p, 0, p)) by {
        assert(p.subrange(0, p.len() as int) =~= p);
    }
    lemma_at_split(p, 0, count + w16(l.drop_rate) + w16(l.out_of_sync_rate), body);
    lemma_at_split(p, 0, count + w16(l.drop_rate), w16(l.out_of_sync_rate));
    lemma_at_split(p, 0, count, w16(l.drop_rate));
    if signed {
        lemma_read_i32(p, 0, l.items.len() as i32);
    } else {
        lemma_read_u32(p, 0, l.items.len() as u32);
    }
    lemma_read_i16(p, 4, l.drop_rate);
    lemma_read_i16(p, 6, l.out_of_sync_rate);
    lemma_repeat_enc(p, 8, l.items, f, item);
    assert(whole(repeat(p, 8, l.items.len(), item), p) == Some(l.items));
}

/// A component decodes back from its encoding: the kinds that have an
/// encoder, each under its own id, words of the right number, and raw
/// payloads under ids that name no kind.
pub open spec fn component_roundtrips(c: ComponentModel) -> bool {
    match c.data {
        ComponentDataModel::ThreeD(_) => c.id == ComponentType::ThreeD.spec_value(),
        ComponentDataModel::ThreeDNoLabels(_) => c.id == ComponentType::ThreeDNoLabels.spec_value(),
        ComponentDataModel::SixD(l) => c.id == ComponentType::SixD.spec_value() && forall|i: int|
            0 <= i < l.items.len() ==> (#[trigger] l.items[i]).rotation_matrix.len() == 9,
        ComponentDataModel::SixDResidual(l) => c.id == ComponentType::SixDResidual.spec_value()
            && forall|i: int|
            0 <= i < l.items.len() ==> (#[trigger] l.items[i]).rotation_matrix.len() == 9,
        ComponentDataModel::SixDEuler(l) => c.id == ComponentType::SixDEuler.spec_value() && forall|
            i: int,
        |
            0 <= i < l.items.len() ==> (#[trigger] l.items[i]).euler.len() == 3,
        ComponentDataModel::SixDEulerResidual(l) => c.id
            == ComponentType::SixDEulerResidual.spec_value() && forall|i: int|
            0 <= i < l.items.len() ==> (#[trigger] l.items[i]).euler.len() == 3,
        ComponentDataModel::Raw(_) => ComponentType::spec_from_value(c.id) is None,
        _ => false,
    }
}

proof fn lemma_component_data_roundtrip(c: ComponentModel)
    requires
        component_roundtrips(c),
        spec_encode_component_data(c.data) is Some,
    ensures
        spec_component_data(c.id, spec_encode_component_data(c.data).unwrap()) == Some(c.data),
{
    match c.data {
        ComponentDataModel::ThreeD(l) => {
            assert forall|i: int| 0 <= i < l.items.len() implies inverts(
                Point3::record(),
                Point3::enc(),
                #[trigger] l.items[i],
            ) by {
                lemma_point3_inverts(l.items[i]);
            }
            lemma_rated_roundtrip(l, false, Point3::enc(), Point3::record());
        },
        ComponentDataModel::ThreeDNoLabels(l) => {
            assert forall|i: int| 0 <= i < l.items.len() implies inverts(
                Point3NoLabel::record(),
                Point3NoLabel::enc(),
                #[trigger] l.items[i],
            ) by {
                lemma_point3_nolabel_inverts(l.items[i]);
            }
            lemma_rated_roundtrip(l, false, Point3NoLabel::enc(), Point3NoLabel::record());
        },
        ComponentDataModel::SixD(l) => {
            assert forall|i: int| 0 <= i < l.items.len() implies inverts(
                Body6D::record(),
                Body6D::enc(),
                #[trigger] l.items[i],
            ) by {
                lemma_body6d_inverts(l.items[i]);
            }
            lemma_rated_roundtrip(l, true, Body6D::enc(), Body6D::record());
        },
        ComponentDataModel::SixDResidual(l) => {
            assert forall|i: int| 0 <= i < l.items.len() implies inverts(
                Body6DResidual::record(),
                Body6DResidual::enc(),
                #[trigger] l.items[i],
            ) by {
                lemma_body6d_residual_inverts(l.items[i]);
            }
            lemma_rated_roundtrip(l, true, Body6DResidual::enc(), Body6DResidual::record());
        },
        ComponentDataModel::SixDEuler(l) => {
            assert forall|i: int| 0 <= i < l.items.len() implies inverts(
                Body6DEuler::record(),
                Body6DEuler::enc(),
                #[trigger] l.items[i],
            ) by {
                lemma_body6d_euler_inverts(l.items[i]);
            }
            lemma_rated_roundtrip(l, true, Body6DEuler::enc(), Body6DEuler::record());
        },
        ComponentDataModel::SixDEulerResidual(l) => {
            assert forall|i: int| 0 <= i < l.items.len() implies inverts(
                Body6DEulerResidual::record(),
                Body6DEulerResidual::enc(),
                #[trigger] l.items[i],
            ) by {
                lemma_body6d_euler_residual_inverts(l.items[i]);
            }
            lemma_rated_roundtrip(
                l,
                true,
                Body6DEulerResidual::enc(),
                Body6DEulerResidual::record(),
            );
        },
        _ => {},
    }
}


proof fn lemma_component_reads(s: Seq<u8>, o: int, c: ComponentModel)
    requires
        component_roundtrips(c),
        spec_encode_component(c) is Some,
        at(s, o, spec_encode_component(c).unwrap()),
    ensures
        rd_component(s, o) == Some((c, o + spec_encode_component(c).unwrap().len())),
{
    let p = spec_encode_component_data(c.data).unwrap();
    lemma_component_data_roundtrip(c);
    lemma_widths();
    lemma_at_split(s, o, w32((8 + p.len()) as u32) + w32(c.id), p);
    lemma_at_split(s, o, w32((8 + p.len()) as u32), w32(c.id));
    lemma_read_u32(s, o, (8 + p.len()) as u32);
    lemma_read_u32(s, o + 4, c.id);
    assert(s.subrange(o + 8, o + le_u32(s, o)) == p);
}

/// Components read back from their encodings, one after the other.
proof fn lemma_components_roundtrip(s: Seq<u8>, o: int, cs: Seq<ComponentModel>)
    requires
        forall|i: int| 0 <= i < cs.len() ==> component_roundtrips(#[trigger] cs[i]),
        spec_encode_components(cs) is Some,
        at(s, o, spec_encode_components(cs).unwrap()),
    ensures
        repeat(s, o, cs.len(), Component::record()) == Some(
            (cs, o + spec_encode_components(cs).unwrap().len()),
        ),
    decreases cs.len(),
{
    if cs.len() > 0 {
        let init = cs.drop_last();
        let last = cs.last();
        let a = spec_encode_components(init).unwrap();
        let b = spec_encode_component(last).unwrap();
        lemma_at_split(s, o, a, b);
        assert forall|i: int| 0 <= i < init.len() implies component_roundtrips(#[trigger] init[i]) by {
            assert(init[i] == cs[i]);
        }
        lemma_components_roundtrip(s, o, init);
        assert(component_roundtrips(cs[cs.len() - 1]));
        lemma_component_reads(s, o + a.len(), last);
        assert(((cs.len() - 1) as nat) == init.len());
        assert(init.push(last) =~= cs);
    } else {
        assert(cs =~= Seq::<ComponentModel>::empty());
    }
}

/// A data packet decodes back from its encoding when each component is of
/// a kind that has an encoder and carries that kind's id (or is raw under
/// an id that names no kind).
pub proof fn law_data_packet_roundtrip(m: DataPacketModel)
    requires
        forall|i: int| 0 <= i < m.components.len() ==> component_roundtrips(#[trigger] m.components[i]),
        spec_encode_data_packet(m) is Some,
    ensures
        spec_framed_packet(spec_encode_data_packet(m).unwrap()) == Ok::<PacketModel, DecodeFailure>(
            PacketModel::Data(m),
        ),
{
    lemma_widths();
    let cb = spec_encode_components(m.components).unwrap();
    let payload = w64(m.timestamp) + w32(m.frame_number) + w32(m.components.len() as u32) + cb;
    let b = spec_encode_data_packet(m).unwrap();
    assert(b == w32((8 + payload.len()) as u32) + w32(PacketType::Data.spec_value()) + payload);
    assert(at(b, 0, b)) by {
        assert(b.subrange(0, b.len() as int) =~= b);
    }
    lemma_at_split(b, 0, w32((8 + payload.len()) as u32) + w32(PacketType::Data.spec_value()), payload);
    lemma_at_split(b, 0, w32((8 + payload.len()) as u32), w32(PacketType::Data.spec_value()));
    lemma_read_u32(b, 0, (8 + payload.len()) as u32);
    lemma_read_u32(b, 4, PacketType::Data.spec_value());
    let p = b.subrange(8, b.len() as int);
    assert(p =~= payload);
    assert(at(p, 0, p)) by {
        assert(p.subrange(0, p.len() as int) =~= p);
    }
    lemma_at_split(p, 0, w64(m.timestamp) + w32(m.frame_number) + w32(m.components.len() as u32), cb);
    lemma_at_split(p, 0, w64(m.timestamp) + w32(m.frame_number), w32(m.components.len() as u32));
    lemma_at_split(p, 0, w64(m.timestamp), w32(m.frame_number));
    lemma_read_u64(p, 0, m.timestamp);
    lemma_read_u32(p, 8, m.frame_number);
    lemma_read_u32(p, 12, m.components.len() as u32);
    lemma_components_roundtrip(p, 16, m.components);
    assert(spec_data_packet(p) == Some(m));
}

/// A text packet of kind error, command or XML decodes back to its text.
pub proof fn law_text_packet_roundtrip(t: PacketType, text: Seq<char>)
    requires
        t is Error || t is Command || t is Xml,
        spec_encode_framed(t, encode_utf8(text).push(0)) is Some,
    ensures
        spec_framed_packet(spec_encode_framed(t, encode_utf8(text).push(0)).unwrap())
            == Ok::<PacketModel, DecodeFailure>(
            match t {
                PacketType::Error => PacketModel::Error(text),
                PacketType::Command => PacketModel::Command(text),
                _ => PacketModel::Xml(text),
            },
        ),
{
    lemma_widths();
    let payload = encode_utf8(text).push(0);
    let b = spec_encode_framed(t, payload).unwrap();
    assert(at(b, 0, b)) by {
        assert(b.subrange(0, b.len() as int) =~= b);
    }
    lemma_at_split(b, 0, w32((8 + payload.len()) as u32) + w32(t.spec_value()), payload);
    lemma_at_split(b, 0, w32((8 + payload.len()) as u32), w32(t.spec_value()));
    lemma_read_u32(b, 0, (8 + payload.len()) as u32);
    lemma_read_u32(b, 4, t.spec_value());
    assert(b.subrange(8, b.len() as int) =~= payload);
    assert(payload.drop_last() =~= encode_utf8(text));
    encode_utf8_valid_utf8(text);
    encode_utf8_decode_utf8(text);
}


// ---------------------------------------------------------------------------
// The other way round: bytes that decode are the encoding of what they
// decode to, for the kinds that have an encoder.

/// The bytes that `item` takes at an offset are the encoding of what it
/// reads there.
pub open spec fn canonical<T>(item: spec_fn(Seq<u8>, int) -> Read<T>, f: spec_fn(T) -> Seq<u8>) -> bool {
    forall|s: Seq<u8>, o: int|
        #[trigger] item(s, o) is Some ==> at(s, o, f(item(s, o).unwrap().0)) && item(s, o).unwrap().1
            == o + f(item(s, o).unwrap().0).len()
}

proof fn lemma_subrange_join(s: Seq<u8>, a: int, b: int, c: int)
    requires
        0 <= a <= b <= c <= s.len(),
    ensures
        s.subrange(a, c) == s.subrange(a, b) + s.subrange(b, c),
{
    assert(s.subrange(a, c) =~= s.subrange(a, b) + s.subrange(b, c));
}

/// The bytes of a field are the encoding of the value read from them.
proof fn lemma_field_bytes(s: Seq<u8>, o: int)
    ensures
        fits(s, o, 4) ==> w32(le_u32(s, o)) == s.subrange(o, o + 4),
        fits(s, o, 4) ==> wi32(le_i32(s, o)) == s.subrange(o, o + 4),
        fits(s, o, 2) ==> w16(le_i16(s, o)) == s.subrange(o, o + 2),
        fits(s, o, 8) ==> w64(le_u64(s, o)) == s.subrange(o, o + 8),
{
    lemma_auto_spec_u32_to_from_le_bytes();
    lemma_auto_spec_u16_to_from_le_bytes();
    lemma_auto_spec_u64_to_from_le_bytes();
    let x = le_u32(s, o);
    assert(((x as i32) as u32) == x) by (bit_vector);
    let y = crate::wire::le_u16(s, o);
    assert(((y as i16) as u16) == y) by (bit_vector);
}

proof fn lemma_words_bytes(s: Seq<u8>, o: int, n: nat)
    requires
        fits(s, o, 4 * n as int),
    ensures
        enc_words(u32s_at(s, o, n)) == s.subrange(o, o + 4 * n),
    decreases n,
{
    let ws = u32s_at(s, o, n);
    if n == 0 {
        assert(ws =~= Seq::<u32>::empty());
        assert(s.subrange(o, o) =~= Seq::<u8>::empty());
    } else {
        let m = (n - 1) as nat;
        assert(ws.drop_last() =~= u32s_at(s, o, m));
        lemma_words_bytes(s, o, m);
        lemma_field_bytes(s, o + 4 * m);
        assert(ws.last() == le_u32(s, o + 4 * m));
        lemma_subrange_join(s, o, o + 4 * m, o + 4 * n);
    }
}

proof fn lemma_point3_bytes(s: Seq<u8>, o: int)
    requires
        fits(s, o, 12),
    ensures
        enc_point3(point3_at(s, o)) == s.subrange(o, o + 12),
{
    lemma_field_bytes(s, o);
    lemma_field_bytes(s, o + 4);
    lemma_field_bytes(s, o + 8);
    lemma_subrange_join(s, o, o + 4, o + 8);
    lemma_subrange_join(s, o, o + 8, o + 12);
}

proof fn lemma_records_canonical()
    ensures
        canonical(Point3::record(), Point3::enc()),
        canonical(Point3NoLabel::record(), Point3NoLabel::enc()),
        canonical(Body6D::record(), Body6D::enc()),
        canonical(Body6DResidual::record(), Body6DResidual::enc()),
        canonical(Body6DEuler::record(), Body6DEuler::enc()),
        canonical(Body6DEulerResidual::record(), Body6DEulerResidual::enc()),
{
    assert forall|s: Seq<u8>, o: int| #[trigger] Point3::record()(s, o) is Some implies at(
        s,
        o,
        Point3::enc()(Point3::record()(s, o).unwrap().0),
    ) && Point3::record()(s, o).unwrap().1 == o + Point3::enc()(Point3::record()(s, o).unwrap().0).len() by {
        lemma_point3_bytes(s, o);
    }
    assert forall|s: Seq<u8>, o: int| #[trigger] Point3NoLabel::record()(s, o) is Some implies at(
        s,
        o,
        Point3NoLabel::enc()(Point3NoLabel::record()(s, o).unwrap().0),
    ) && Point3NoLabel::record()(s, o).unwrap().1 == o + Point3NoLabel::enc()(
        Point3NoLabel::record()(s, o).unwrap().0,
    ).len() by {
        lemma_point3_bytes(s, o);
        lemma_field_bytes(s, o + 12);
        lemma_subrange_join(s, o, o + 12, o + 16);
    }
    assert forall|s: Seq<u8>, o: int| #[trigger] Body6D::record()(s, o) is Some implies at(
        s,
        o,
        Body6D::enc()(Body6D::record()(s, o).unwrap().0),
    ) && Body6D::record()(s, o).unwrap().1 == o + Body6D::enc()(Body6D::record()(s, o).unwrap().0).len() by {
        lemma_point3_bytes(s, o);
        lemma_words_bytes(s, o + 12, 9);
        lemma_subrange_join(s, o, o + 12, o + 48);
    }
    assert forall|s: Seq<u8>, o: int| #[trigger] Body6DResidual::record()(s, o) is Some implies at(
        s,
        o,
        Body6DResidual::enc()(Body6DResidual::record()(s, o).unwrap().0),
    ) && Body6DResidual::record()(s, o).unwrap().1 == o + Body6DResidual::enc()(
        Body6DResidual::record()(s, o).unwrap().0,
    ).len() by {
        lemma_point3_bytes(s, o);
        lemma_words_bytes(s, o + 12, 9);
        lemma_field_bytes(s, o + 48);
        lemma_subrange_join(s, o, o + 12, o + 48);
        lemma_subrange_join(s, o, o + 48, o + 52);
    }
    assert forall|s: Seq<u8>, o: int| #[trigger] Body6DEuler::record()(s, o) is Some implies at(
        s,
        o,
        Body6DEuler::enc()(Body6DEuler::record()(s, o).unwrap().0),
    ) && Body6DEuler::record()(s, o).unwrap().1 == o + Body6DEuler::enc()(
        Body6DEuler::record()(s, o).unwrap().0,
    ).len() by {
        lemma_point3_bytes(s, o);
        lemma_words_bytes(s, o + 12, 3);
        lemma_subrange_join(s, o, o + 12, o + 24);
    }
    assert forall|s: Seq<u8>, o: int| #[trigger] Body6DEulerResidual::record()(s, o) is Some implies at(
        s,
        o,
        Body6DEulerResidual::enc()(Body6DEulerResidual::record()(s, o).unwrap().0),
    ) && Body6DEulerResidual::record()(s, o).unwrap().1 == o + Body6DEulerResidual::enc()(
        Body6DEulerResidual::record()(s, o).unwrap().0,
    ).len() by {
        lemma_point3_bytes(s, o);
        lemma_words_bytes(s, o + 12, 3);
        lemma_field_bytes(s, o + 24);
        lemma_subrange_join(s, o, o + 12, o + 24);
        lemma_subrange_join(s, o, o + 24, o + 28);
    }
}

/// A repetition takes the encodings of the items it reads, one after the
/// other.
proof fn lemma_repeat_bytes<T>(
    s: Seq<u8>,
    o: int,
    n: nat,
    item: spec_fn(Seq<u8>, int) -> Read<T>,
    f: spec_fn(T) -> Seq<u8>,
)
    requires
        canonical(item, f),
        repeat(s, o, n, item) is Some,
        0 <= o <= s.len(),
    ensures
        repeat(s, o, n, item).unwrap().0.len() == n,
        at(s, o, enc_seq(repeat(s, o, n, item).unwrap().0, f)),
        repeat(s, o, n, item).unwrap().1 == o + enc_seq(repeat(s, o, n, item).unwrap().0, f).len(),
    decreases n,
{
    let xs = repeat(s, o, n, item).unwrap().0;
    if n == 0 {
        assert(xs =~= Seq::<T>::empty());
        assert(s.subrange(o, o) =~= Seq::<u8>::empty());
    } else {
        let m = (n - 1) as nat;
        lemma_repeat_bytes(s, o, m, item, f);
        let (ys, o1) = repeat(s, o, m, item).unwrap();
        assert(item(s, o1) is Some);
        let (x, o2) = item(s, o1).unwrap();
        assert(xs == ys.push(x));
        assert(xs.drop_last() =~= ys);
        assert(at(s, o1, f(x)));
        lemma_subrange_join(s, o, o1, o2);
    }
}

/// A rated list is the encoding of what it reads as.
proof fn lemma_rated_bytes<T>(
    p: Seq<u8>,
    signed: bool,
    item: spec_fn(Seq<u8>, int) -> Read<T>,
    f: spec_fn(T) -> Seq<u8>,
)
    requires
        canonical(item, f),
        spec_rated_list(p, signed, item) is Some,
    ensures
        ({
            let l = spec_rated_list(p, signed, item).unwrap();
            &&& signed ==> l.items.len() <= i32::MAX
            &&& !signed ==> l.items.len() <= u32::MAX
            &&& p == enc_rated(
                if signed {
                    wi32(l.items.len() as i32)
                } else {
                    w32(l.items.len() as u32)
                },
                l.drop_rate,
                l.out_of_sync_rate,
                l.items,
                f,
            )
        }),
{
    let l = spec_rated_list(p, signed, item).unwrap();
    let n: nat = if signed {
        le_i32(p, 0) as nat
    } else {
        le_u32(p, 0) as nat
    };
    lemma_repeat_bytes(p, 8, n, item, f);
    lemma_field_bytes(p, 0);
    lemma_field_bytes(p, 4);
    lemma_field_bytes(p, 6);
    lemma_subrange_join(p, 0, 4, 6);
    lemma_subrange_join(p, 0, 6, 8);
    lemma_subrange_join(p, 0, 8, p.len() as int);
    assert(p.subrange(0, p.len() as int) =~= p);
    if signed {
        assert(l.items.len() as i32 == le_i32(p, 0));
    } else {
        assert(l.items.len() as u32 == le_u32(p, 0));
    }
}

/// The ids whose payloads have an encoder: the 3D kinds with and without
/// labels, the four 6D kinds, and the ids that name no kind (kept raw).
pub open spec fn has_encoder(id: u32) -> bool {
    match ComponentType::spec_from_value(id) {
        None => true,
        Some(ComponentType::ThreeD) => true,
        Some(ComponentType::ThreeDNoLabels) => true,
        Some(ComponentType::SixD) => true,
        Some(ComponentType::SixDResidual) => true,
        Some(ComponentType::SixDEuler) => true,
        Some(ComponentType::SixDEulerResidual) => true,
        _ => false,
    }
}

proof fn lemma_component_data_bytes(id: u32, p: Seq<u8>)
    requires
        has_encoder(id),
        spec_component_data(id, p) is Some,
    ensures
        spec_encode_component_data(spec_component_data(id, p).unwrap()) == Some(p),
{
    lemma_records_canonical();
    match ComponentType::spec_from_value(id) {
        Some(ComponentType::ThreeD) => lemma_rated_bytes(p, false, Point3::record(), Point3::enc()),
        Some(ComponentType::ThreeDNoLabels) => lemma_rated_bytes(
            p,
            false,
            Point3NoLabel::record(),
            Point3NoLabel::enc(),
        ),
        Some(ComponentType::SixD) => lemma_rated_bytes(p, true, Body6D::record(), Body6D::enc()),
        Some(ComponentType::SixDResidual) => lemma_rated_bytes(
            p,
            true,
            Body6DResidual::record(),
            Body6DResidual::enc(),
        ),
        Some(ComponentType::SixDEuler) => lemma_rated_bytes(
            p,
            true,
            Body6DEuler::record(),
            Body6DEuler::enc(),
        ),
        Some(ComponentType::SixDEulerResidual) => lemma_rated_bytes(
            p,
            true,
            Body6DEulerResidual::record(),
            Body6DEulerResidual::enc(),
        ),
        _ => {},
    }
}

proof fn lemma_component_bytes(s: Seq<u8>, o: int)
    requires
        rd_component(s, o) is Some,
        has_encoder(rd_component(s, o).unwrap().0.id),
    ensures
        ({
            let (c, o2) = rd_component(s, o).unwrap();
            spec_encode_component(c) == Some(s.subrange(o, o2)) && o <= o2
        }),
{
    let (c, o2) = rd_component(s, o).unwrap();
    let size = le_u32(s, o) as int;
    let p = s.subrange(o + 8, o + size);
    lemma_component_data_bytes(c.id, p);
    lemma_field_bytes(s, o);
    lemma_field_bytes(s, o + 4);
    assert((8 + p.len()) as u32 == le_u32(s, o));
    lemma_subrange_join(s, o, o + 4, o + 8);
    lemma_subrange_join(s, o, o + 8, o + size);
}

proof fn lemma_repeat_len<T>(s: Seq<u8>, o: int, n: nat, item: spec_fn(Seq<u8>, int) -> Read<T>)
    requires
        repeat(s, o, n, item) is Some,
    ensures
        repeat(s, o, n, item).unwrap().0.len() == n,
    decreases n,
{
    if n > 0 {
        lemma_repeat_len(s, o, (n - 1) as nat, item);
    }
}

proof fn lemma_components_bytes(s: Seq<u8>, o: int, n: nat)
    requires
        repeat(s, o, n, Component::record()) is Some,
        0 <= o <= s.len(),
        forall|i: int|
            0 <= i < n ==> has_encoder(
                (#[trigger] repeat(s, o, n, Component::record()).unwrap().0[i]).id,
            ),
    ensures
        ({
            let (cs, o2) = repeat(s, o, n, Component::record()).unwrap();
            cs.len() == n && o <= o2 && spec_encode_components(cs) == Some(s.subrange(o, o2))
        }),
    decreases n,
{
    let (cs, o2) = repeat(s, o, n, Component::record()).unwrap();
    if n == 0 {
        assert(cs =~= Seq::<ComponentModel>::empty());
        assert(s.subrange(o, o) =~= Seq::<u8>::empty());
    } else {
        let m = (n - 1) as nat;
        let (ys, o1) = repeat(s, o, m, Component::record()).unwrap();
        assert(rd_component(s, o1) is Some);
        let (x, o3) = rd_component(s, o1).unwrap();
        assert(cs == ys.push(x));
        lemma_repeat_len(s, o, m, Component::record());
        assert forall|i: int| 0 <= i < m implies has_encoder(
            (#[trigger] repeat(s, o, m, Component::record()).unwrap().0[i]).id,
        ) by {
            assert(cs[i] == ys[i]);
        }
        lemma_components_bytes(s, o, m);
        assert(has_encoder(cs[m as int].id));
        lemma_component_bytes(s, o1);
        assert(cs.drop_last() =~= ys);
        assert(cs.last() == x);
        lemma_subrange_join(s, o, o1, o2);
    }
}

/// A data packet payload is the encoding of what it decodes to.
proof fn lemma_data_payload_bytes(p: Seq<u8>, d: DataPacketModel)
    requires
        spec_data_packet(p) == Some(d),
        forall|i: int| 0 <= i < d.components.len() ==> has_encoder(#[trigger] d.components[i].id),
    ensures
        d.components.len() <= u32::MAX,
        spec_encode_components(d.components) is Some,
        p == w64(d.timestamp) + w32(d.frame_number) + w32(d.components.len() as u32)
            + spec_encode_components(d.components).unwrap(),
{
    let n = le_u32(p, 12) as nat;
    let (cs, o2) = repeat(p, 16, n, Component::record()).unwrap();
    assert(cs == d.components && o2 == p.len());
    assert forall|i: int| 0 <= i < n implies has_encoder(
        (#[trigger] repeat(p, 16, n, Component::record()).unwrap().0[i]).id,
    ) by {
        lemma_repeat_len(p, 16, n, Component::record());
        assert(cs[i] == d.components[i]);
    }
    lemma_components_bytes(p, 16, n);
    lemma_field_bytes(p, 0);
    lemma_field_bytes(p, 8);
    lemma_field_bytes(p, 12);
    lemma_subrange_join(p, 0, 8, 12);
    lemma_subrange_join(p, 0, 12, 16);
    lemma_subrange_join(p, 0, 16, p.len() as int);
    assert(p.subrange(0, p.len() as int) =~= p);
    assert(d.components.len() as u32 == le_u32(p, 12));
}

/// A data packet whose components all have an encoder encodes back to
/// the very bytes it was decoded from: the encoding is the only one the
/// decoder accepts for such a packet.
pub proof fn law_data_packet_reencodes(b: Seq<u8>, d: DataPacketModel)
    requires
        spec_framed_packet(b) == Ok::<PacketModel, DecodeFailure>(PacketModel::Data(d)),
        forall|i: int| 0 <= i < d.components.len() ==> has_encoder(#[trigger] d.components[i].id),
    ensures
        spec_encode_data_packet(d) == Some(b),
{
    let p = b.subrange(8, b.len() as int);
    assert(spec_data_packet(p) == Some(d));
    lemma_data_payload_bytes(p, d);
    lemma_field_bytes(b, 0);
    lemma_field_bytes(b, 4);
    assert(PacketType::Data.spec_value() == le_u32(b, 4));
    assert((8 + p.len()) as u32 == le_u32(b, 0));
    lemma_subrange_join(b, 0, 4, 8);
    lemma_subrange_join(b, 0, 8, b.len() as int);
    assert(b.subrange(0, b.len() as int) =~= b);
}

/// A skeleton segment on the wire is its id, the three words of its
/// position, then the four words of its rotation quaternion in the order
/// x, y, z, w; a segment laid out so reads back as itself, wherever it lies.
pub proof fn law_skeleton_segment_layout(seg: SkeletonSegment, s: Seq<u8>, o: int)
    requires
        at(
            s,
            o,
            wi32(seg.id) + w32(seg.position.x) + w32(seg.position.y) + w32(seg.position.z) + w32(
                seg.rotation.x,
            ) + w32(seg.rotation.y) + w32(seg.rotation.z) + w32(seg.rotation.w),
        ),
    ensures
        SkeletonSegment::record()(s, o) == Some((seg, o + 32)),
{
    lemma_widths();
    let q = seg.rotation;
    let p = seg.position;
    let head = wi32(seg.id) + w32(p.x) + w32(p.y) + w32(p.z);
    lemma_at_split(s, o, head + w32(q.x) + w32(q.y) + w32(q.z), w32(q.w));
    lemma_at_split(s, o, head + w32(q.x) + w32(q.y), w32(q.z));
    lemma_at_split(s, o, head + w32(q.x), w32(q.y));
    lemma_at_split(s, o, head, w32(q.x));
    lemma_at_split(s, o, wi32(seg.id) + w32(p.x) + w32(p.y), w32(p.z));
    lemma_at_split(s, o, wi32(seg.id) + w32(p.x), w32(p.y));
    lemma_at_split(s, o, wi32(seg.id), w32(p.x));
    lemma_read_i32(s, o, seg.id);
    lemma_read_u32(s, o + 4, p.x);
    lemma_read_u32(s, o + 8, p.y);
    lemma_read_u32(s, o + 12, p.z);
    lemma_read_u32(s, o + 16, q.x);
    lemma_read_u32(s, o + 20, q.y);
    lemma_read_u32(s, o + 24, q.z);
    lemma_read_u32(s, o + 28, q.w);
}

} // verus!
