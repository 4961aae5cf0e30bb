//! Frame assembly: QTM may split one frame's components over several UDP
//! packets; the accumulator merges the packets of a frame and hands out the
//! frame once every expected component has arrived, or when a packet of
//! another frame shows that no more will come.

use std::collections::{BTreeMap, BTreeSet};
use vstd::prelude::*;

use crate::packet::{Component, DataPacket};
use crate::protocol::{ComponentSelection, ComponentType};

verus! {

broadcast use vstd::laws_cmp::group_laws_cmp;

/// A frame put together from one or more data packets. `complete` tells
/// whether every expected component arrived; components are keyed by id.
#[derive(Debug)]
pub struct AssembledFrame {
    pub timestamp: u64,
    pub frame_number: u32,
    pub complete: bool,
    pub components: BTreeMap<u32, Component>,
}

/// Model of an assembled frame.
pub struct AssembledFrameModel {
    pub timestamp: u64,
    pub frame_number: u32,
    pub complete: bool,
    pub components: Map<u32, Component>,
}

impl View for AssembledFrame {
    type V = AssembledFrameModel;

    open spec fn view(&self) -> AssembledFrameModel {
        AssembledFrameModel {
            timestamp: self.timestamp,
            frame_number: self.frame_number,
            complete: self.complete,
            components: self.components@,
        }
    }
}

/// The components entered into a map by id, in order: a later component
/// replaces an earlier one with the same id.
pub open spec fn insert_all(m: Map<u32, Component>, cs: Seq<Component>) -> Map<u32, Component>
    decreases cs.len(),
{
    if cs.len() == 0 {
        m
    } else {
        insert_all(m, cs.drop_last()).insert(cs.last().id, cs.last())
    }
}

proof fn lemma_insert_all_take(m: Map<u32, Component>, cs: Seq<Component>, k: int)
    requires
        0 <= k < cs.len(),
    ensures
        insert_all(m, cs.take(k + 1)) == insert_all(m, cs.take(k)).insert(cs[k].id, cs[k]),
{
    assert(cs.take(k + 1).drop_last() =~= cs.take(k));
}

/// A fresh frame from a packet, not yet complete.
pub open spec fn spec_frame_of(p: DataPacket) -> AssembledFrameModel {
    AssembledFrameModel {
        timestamp: p.timestamp,
        frame_number: p.frame_number,
        complete: false,
        components: insert_all(Map::empty(), p.components@),
    }
}

/// A frame with a further packet's components entered.
pub open spec fn spec_merge(f: AssembledFrameModel, p: DataPacket) -> AssembledFrameModel {
    AssembledFrameModel { components: insert_all(f.components, p.components@), ..f }
}

proof fn lemma_push_to_set(s: Seq<u32>, x: u32)
    ensures
        s.push(x).to_set() == s.to_set().insert(x),
{
    assert(s + seq![x] =~= s.push(x));
    Seq::lemma_to_set_insert_commutes(s, x);
}

/// Whether every expected component id is present.
pub open spec fn complete_for(expected: Set<u32>, components: Map<u32, Component>) -> bool {
    forall|id: u32| #[trigger] expected.contains(id) ==> components.contains_key(id)
}

/// The frame as handed out, its completeness decided.
pub open spec fn spec_finalize(expected: Set<u32>, f: AssembledFrameModel) -> AssembledFrameModel {
    AssembledFrameModel { complete: complete_for(expected, f.components), ..f }
}

/// A frame handed out if complete, else kept.
pub open spec fn spec_accept(expected: Set<u32>, f: AssembledFrameModel) -> (
    Option<AssembledFrameModel>,
    Seq<AssembledFrameModel>,
) {
    if complete_for(expected, f.components) {
        (None, seq![spec_finalize(expected, f)])
    } else {
        (Some(f), Seq::empty())
    }
}

/// One step of the accumulator: the frame kept afterwards and the frames
/// handed out, in order.
pub open spec fn spec_push(
    expected: Set<u32>,
    current: Option<AssembledFrameModel>,
    p: DataPacket,
) -> (Option<AssembledFrameModel>, Seq<AssembledFrameModel>) {
    match current {
        None => spec_accept(expected, spec_frame_of(p)),
        Some(cur) => if cur.timestamp == p.timestamp && cur.frame_number == p.frame_number {
            spec_accept(expected, spec_merge(cur, p))
        } else {
            let (next, out) = spec_accept(expected, spec_frame_of(p));
            (next, seq![spec_finalize(expected, cur)] + out)
        },
    }
}

/// The model of a kept frame, if any.
pub open spec fn frame_view(f: Option<AssembledFrame>) -> Option<AssembledFrameModel> {
    match f {
        Some(f) => Some(f@),
        None => None,
    }
}

/// The models of frames handed out.
pub open spec fn frames_view(v: Seq<AssembledFrame>) -> Seq<AssembledFrameModel> {
    v.map_values(|f: AssembledFrame| f@)
}

impl Clone for AssembledFrame {
    /// A frame with the same stamps, mark and components.
    fn clone(&self) -> (r: Self)
        ensures
            r@ == self@,
    {
        AssembledFrame {
            timestamp: self.timestamp,
            frame_number: self.frame_number,
            complete: self.complete,
            components: self.components.clone(),
        }
    }
}

impl Clone for FrameAccumulator {
    /// An accumulator waiting for the same components, with the same frame
    /// being put together.
    fn clone(&self) -> (r: Self)
        ensures
            r.expected() == self.expected(),
            r.current() == self.current(),
    {
        proof {
            use_type_invariant(self);
        }
        let expected_components = self.expected_components.clone();
        let current = match &self.current {
            Some(f) => Some(f.clone()),
            None => None,
        };
        FrameAccumulator { expected_components, current }
    }
}

impl AssembledFrame {
    /// The component of the given kind, if the frame has one.
    pub fn component(&self, component_type: ComponentType) -> (r: Option<&Component>)
        ensures
            match r {
                Some(c) => self.components@.contains_key(component_type.spec_value())
                    && self.components@[component_type.spec_value()] == *c,
                None => !self.components@.contains_key(component_type.spec_value()),
            },
    {
        let id = component_type.value();
        self.components.get(&id)
    }

    /// Enters the components into the frame's map, in order.
    fn insert_components(&mut self, components: Vec<Component>)
        ensures
            final(self).timestamp == old(self).timestamp,
            final(self).frame_number == old(self).frame_number,
            final(self).complete == old(self).complete,
            final(self).components@ == insert_all(old(self).components@, components@),
    {
        let ghost all = components@;
        let mut rest = components;
        let ghost mut k: int = 0;
        while rest.len() > 0
            invariant
                0 <= k <= all.len(),
                k + rest@.len() == all.len(),
                rest@ == all.skip(k),
                self.timestamp == old(self).timestamp,
                self.frame_number == old(self).frame_number,
                self.complete == old(self).complete,
                self.components@ == insert_all(old(self).components@, all.take(k)),
            decreases rest.len(),
        {
            let c = rest.remove(0);
            proof {
                assert(all.skip(k)[0] == all[k]);
                lemma_insert_all_take(old(self).components@, all, k);
                assert(all.skip(k).remove(0) =~= all.skip(k + 1));
            }
            self.components.insert(c.id, c);
            proof {
                k = k + 1;
            }
        }
        assert(all.take(k) =~= all);
    }

    fn from_packet(packet: DataPacket) -> (f: AssembledFrame)
        ensures
            f@ == spec_frame_of(packet),
    {
        let mut frame = AssembledFrame {
            timestamp: packet.timestamp,
            frame_number: packet.frame_number,
            complete: false,
            components: BTreeMap::new(),
        };
        frame.insert_components(packet.components);
        frame
    }

    fn merge_packet(&mut self, packet: DataPacket)
        ensures
            final(self)@ == spec_merge(old(self)@, packet),
    {
        self.insert_components(packet.components);
    }
}

/// Merges split data packets into frames.
#[derive(Debug)]
pub struct FrameAccumulator {
    expected_components: BTreeSet<u32>,
    current: Option<AssembledFrame>,
}

impl FrameAccumulator {
    /// The frame being put together never holds every expected component:
    /// such a frame is handed out at once.
    #[verifier::type_invariant]
    spec fn pending_incomplete(self) -> bool {
        match self.current {
            Some(f) => !complete_for(self.expected_components@, f@.components),
            None => true,
        }
    }

    /// The component ids a frame must hold to be complete.
    pub closed spec fn expected(&self) -> Set<u32> {
        self.expected_components@
    }

    /// The frame being put together, if any.
    pub closed spec fn current(&self) -> Option<AssembledFrameModel> {
        frame_view(self.current)
    }

    /// An accumulator that waits for the given component ids.
    pub fn new(expected_components: Vec<u32>) -> (a: Self)
        ensures
            a.expected() == expected_components@.to_set(),
            a.current() is None,
    {
        let mut ids: BTreeSet<u32> = BTreeSet::new();
        let mut i: usize = 0;
        while i < expected_components.len()
            invariant
                0 <= i <= expected_components.len(),
                ids@ == expected_components@.take(i as int).to_set(),
            decreases expected_components.len() - i,
        {
            ids.insert(expected_components[i]);
            assert(expected_components@.take(i + 1) =~= expected_components@.take(i as int).push(
                expected_components@[i as int],
            ));
            proof {
                lemma_push_to_set(expected_components@.take(i as int), expected_components@[i as int]);
            }
            i = i + 1;
        }
        assert(expected_components@.take(i as int) =~= expected_components@);
        FrameAccumulator { expected_components: ids, current: None }
    }

    /// An accumulator that waits for the components the selections ask for.
    pub fn for_components(expected_components: Vec<ComponentSelection>) -> (a: Self)
        ensures
            a.expected() == expected_components@.map_values(
                |c: ComponentSelection| c.spec_component_type().spec_value(),
            ).to_set(),
            a.current() is None,
    {
        let mut ids: Vec<u32> = Vec::new();
        let mut i: usize = 0;
        while i < expected_components.len()
            invariant
                0 <= i <= expected_components.len(),
                ids@ =~= expected_components@.take(i as int).map_values(
                    |c: ComponentSelection| c.spec_component_type().spec_value(),
                ),
            decreases expected_components.len() - i,
        {
            let id = expected_components[i].component_type().value();
            ids.push(id);
            assert(expected_components@.take(i + 1) =~= expected_components@.take(i as int).push(
                expected_components@[i as int],
            ));
            i = i + 1;
        }
        assert(expected_components@.take(expected_components.len() as int) =~= expected_components@);
        Self::new(ids)
    }

    fn is_complete(&self, frame: &AssembledFrame) -> (r: bool)
        ensures
            r == complete_for(self.expected(), frame.components@),
    {
        let ghost ids = self.expected_components@;
        let ghost mut seen: Set<u32> = Set::empty();
        for id in it: self.expected_components.iter()
            invariant
                ids == self.expected_components@,
                it.seq().unref().to_set() == ids,
                seen == it.seq().unref().take(it.index() as int).to_set(),
                it.index() == it.seq().len() ==> seen == ids,
                forall|x: u32| #[trigger] seen.contains(x) ==> frame.components@.contains_key(x),
        {
            assert(it.seq().unref()[it.index() as int] == *id);
            assert(it.seq().unref().contains(*id));
            assert(ids.contains(*id));
            if !frame.components.contains_key(id) {
                assert(!frame.components@.contains_key(*id));
                return false;
            }
            assert(it.seq().unref().take(it.index() + 1) =~= it.seq().unref().take(
                it.index() as int,
            ).push(*id));
            proof {
                lemma_push_to_set(it.seq().unref().take(it.index() as int), *id);
            }
            assert(it.index() + 1 == it.seq().len() ==> it.seq().unref().take(it.index() + 1)
                =~= it.seq().unref());
            proof {
                seen = seen.insert(*id);
            }
        }
        assert(seen == ids);
        true
    }

    fn finalize(&self, frame: AssembledFrame) -> (f: AssembledFrame)
        ensures
            f@ == spec_finalize(self.expected(), frame@),
    {
        let mut frame = frame;
        frame.complete = self.is_complete(&frame);
        frame
    }

    fn accept_frame(&mut self, frame: AssembledFrame, emitted: &mut Vec<AssembledFrame>)
        requires
            old(self).current() is None,
        ensures
            final(self).expected() == old(self).expected(),
            final(emitted)@.len() >= old(emitted)@.len(),
            (final(self).current(), frames_view(final(emitted)@).skip(old(emitted)@.len() as int))
                == spec_accept(old(self).expected(), frame@),
            frames_view(final(emitted)@).take(old(emitted)@.len() as int) == frames_view(
                old(emitted)@,
            ),
    {
        if self.is_complete(&frame) {
            let f = self.finalize(frame);
            emitted.push(f);
            assert(frames_view(emitted@).skip(old(emitted)@.len() as int) =~= seq![f@]);
        } else {
            self.current = Some(frame);
            assert(frames_view(emitted@).skip(old(emitted)@.len() as int) =~= Seq::<
                AssembledFrameModel,
            >::empty());
        }
        assert(frames_view(emitted@).take(old(emitted)@.len() as int) =~= frames_view(
            old(emitted)@,
        ));
    }

    fn accept_packet(&mut self, packet: DataPacket, emitted: &mut Vec<AssembledFrame>)
        requires
            old(self).current() is None,
        ensures
            final(self).expected() == old(self).expected(),
            final(emitted)@.len() >= old(emitted)@.len(),
            (final(self).current(), frames_view(final(emitted)@).skip(old(emitted)@.len() as int))
                == spec_accept(old(self).expected(), spec_frame_of(packet)),
            frames_view(final(emitted)@).take(old(emitted)@.len() as int) == frames_view(
                old(emitted)@,
            ),
    {
        let frame = AssembledFrame::from_packet(packet);
        self.accept_frame(frame, emitted);
    }

    /// Takes in one data packet; hands out the frames that are done.
    pub fn push(&mut self, packet: DataPacket) -> (emitted: Vec<AssembledFrame>)
        ensures
            final(self).expected() == old(self).expected(),
            old(self).current() matches Some(f) ==> !complete_for(old(self).expected(), f.components),
            final(self).current() matches Some(f) ==> !complete_for(
                final(self).expected(),
                f.components,
            ),
            ({
                let f = old(self).current()->0;
                old(self).current() is Some && (f.timestamp != packet.timestamp || f.frame_number
                    != packet.frame_number) ==> emitted@.len() >= 1 && emitted@[0]@
                    == (AssembledFrameModel { complete: false, ..f })
            }),
            (final(self).current(), frames_view(emitted@)) == spec_push(
                old(self).expected(),
                old(self).current(),
                packet,
            ),
    {
        proof {
            use_type_invariant(&*self);
            if let Some(f) = old(self).current() {
                if f.timestamp != packet.timestamp || f.frame_number != packet.frame_number {
                    law_new_frame_hands_out_previous(old(self).expected(), f, packet);
                }
            }
        }
        let mut emitted: Vec<AssembledFrame> = Vec::new();
        let mut current: Option<AssembledFrame> = None;
        std::mem::swap(&mut current, &mut self.current);
        match current {
            None => {
                self.accept_packet(packet, &mut emitted);
                assert(frames_view(emitted@).skip(0) =~= frames_view(emitted@));
            },
            Some(mut cur) => {
                if cur.timestamp == packet.timestamp && cur.frame_number == packet.frame_number {
                    cur.merge_packet(packet);
                    self.accept_frame(cur, &mut emitted);
                    assert(frames_view(emitted@).skip(0) =~= frames_view(emitted@));
                } else {
                    let f = self.finalize(cur);
                    emitted.push(f);
                    let ghost first = emitted@;
                    self.accept_packet(packet, &mut emitted);
                    assert(frames_view(first) =~= seq![f@]);
                    assert(frames_view(emitted@) =~= frames_view(emitted@).take(1) + frames_view(emitted@).skip(1));
                }
            },
        }
        emitted
    }

    /// Hands out the frame being put together, if any, its completeness
    /// decided; the accumulator is then empty.
    pub fn flush(&mut self) -> (r: Option<AssembledFrame>)
        ensures
            final(self).expected() == old(self).expected(),
            final(self).current() is None,
            frame_view(r) == match old(self).current() {
                Some(f) => Some(spec_finalize(old(self).expected(), f)),
                None => None,
            },
            r matches Some(f) ==> !f.complete,
    {
        proof {
            use_type_invariant(&*self);
        }
        let mut current: Option<AssembledFrame> = None;
        std::mem::swap(&mut current, &mut self.current);
        match current {
            Some(frame) => Some(self.finalize(frame)),
            None => None,
        }
    }
}


/// Turns assembled frames into bytes (for users to implement).
pub trait FrameEncoder {
    type Error;

    fn encode(&mut self, frame: &AssembledFrame) -> Result<Vec<u8>, Self::Error>;
}

/// Publishes bytes under a topic (for users to implement).
pub trait BytePublisher {
    type Error;

    fn publish(&mut self, topic: &str, payload: &[u8]) -> Result<(), Self::Error>;
}

/// Receives assembled frames (for users to implement).
pub trait FrameSink {
    type Error;

    fn publish_frame(&mut self, frame: &AssembledFrame) -> Result<(), Self::Error>;
}

/// The ids a map holds after entering components are those it held and
/// those of the components.
pub proof fn lemma_insert_all_contains(m: Map<u32, Component>, cs: Seq<Component>, id: u32)
    ensures
        insert_all(m, cs).contains_key(id) <==> (m.contains_key(id) || exists|i: int|
            0 <= i < cs.len() && (#[trigger] cs[i]).id == id),
    decreases cs.len(),
{
    if cs.len() > 0 {
        lemma_insert_all_contains(m, cs.drop_last(), id);
        if exists|i: int| 0 <= i < cs.len() && (#[trigger] cs[i]).id == id {
            let i = choose|i: int| 0 <= i < cs.len() && (#[trigger] cs[i]).id == id;
            if i < cs.len() - 1 {
                assert(cs.drop_last()[i] == cs[i]);
            }
        }
        if exists|i: int| 0 <= i < cs.len() - 1 && (#[trigger] cs.drop_last()[i]).id == id {
            let i = choose|i: int| 0 <= i < cs.len() - 1 && (#[trigger] cs.drop_last()[i]).id == id;
            assert(cs[i] == cs.drop_last()[i]);
        }
    }
}

/// Every frame the accumulator hands out is marked complete exactly when it
/// holds every expected component.
pub proof fn law_emitted_frames_marked(
    expected: Set<u32>,
    current: Option<AssembledFrameModel>,
    p: DataPacket,
)
    ensures
        forall|i: int|
            0 <= i < spec_push(expected, current, p).1.len() ==> (#[trigger] spec_push(
                expected,
                current,
                p,
            ).1[i]).complete == complete_for(expected, spec_push(expected, current, p).1[i].components),
{
}

/// Packets of one frame are merged: after the first packet of a frame
/// (which on its own lacks an expected component) and a second packet of
/// the same frame, the accumulator holds or hands out one frame with the
/// components of both, those of the second replacing those of the first
/// with the same id.
pub proof fn law_split_frame_merges(expected: Set<u32>, a: DataPacket, b: DataPacket)
    requires
        a.timestamp == b.timestamp,
        a.frame_number == b.frame_number,
        !complete_for(expected, spec_frame_of(a).components),
    ensures
        spec_push(expected, None, a) == (
            Some(spec_frame_of(a)),
            Seq::<AssembledFrameModel>::empty(),
        ),
        ({
            let merged = spec_merge(spec_frame_of(a), b);
            &&& merged.components == insert_all(insert_all(Map::empty(), a.components@), b.components@)
            &&& merged.timestamp == a.timestamp && merged.frame_number == a.frame_number
            &&& spec_push(expected, Some(spec_frame_of(a)), b) == if complete_for(
                expected,
                merged.components,
            ) {
                (None, seq![spec_finalize(expected, merged)])
            } else {
                (Some(merged), Seq::empty())
            }
        }),
{
}

/// A packet of another frame hands out the frame being put together first,
/// its completeness decided, and then deals with the new packet as on an
/// empty accumulator.
pub proof fn law_new_frame_hands_out_previous(
    expected: Set<u32>,
    cur: AssembledFrameModel,
    p: DataPacket,
)
    requires
        cur.timestamp != p.timestamp || cur.frame_number != p.frame_number,
    ensures
        spec_push(expected, Some(cur), p).1[0] == spec_finalize(expected, cur),
        spec_push(expected, Some(cur), p).1.len() >= 1,
        spec_push(expected, Some(cur), p).0 == spec_push(expected, None, p).0,
        spec_push(expected, Some(cur), p).1.skip(1) == spec_push(expected, None, p).1,
{
    let (next, out) = spec_accept(expected, spec_frame_of(p));
    assert((seq![spec_finalize(expected, cur)] + out).skip(1) =~= out);
}

/// The accumulator never keeps a frame that holds every expected component:
/// such a frame is handed out at once. It hands out at most two frames per
/// packet.
pub proof fn law_kept_frame_is_incomplete(
    expected: Set<u32>,
    current: Option<AssembledFrameModel>,
    p: DataPacket,
)
    ensures
        spec_push(expected, current, p).0 matches Some(f) ==> !complete_for(expected, f.components),
        spec_push(expected, current, p).1.len() <= 2,
{
}

} // verus!
