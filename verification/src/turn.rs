//! One turn of the loop, after events were dispatched: the surfaces that are ready are redrawn,
//! and the collected events are forwarded.

use crate::event::{Control, LayerSurfaceEventVariant, Output, SctkEvent, WindowEvent};
use crate::frame::{receive_frame, received, FrameStatus};
use crate::state::{SctkState, SctkStateView};
use crate::surface::{window_id, Surface};
use vstd::prelude::*;

verus! {

broadcast use vstd::std_specs::hash::group_hash_axioms;

/// The surface `id` can be redrawn: it is ready, and the application knows it.
pub open spec fn can_redraw(
    frames: Map<u64, FrameStatus>,
    known: Map<u64, u64>,
    id: u64,
) -> bool {
    &&& frames.contains_key(id)
    &&& frames[id] == FrameStatus::Ready
    &&& known.contains_key(id)
}

/// One of `surfaces` is the surface `id`.
pub open spec fn mentions(surfaces: Seq<Surface>, id: u64) -> bool {
    exists|i: int| 0 <= i < surfaces.len() && (#[trigger] surfaces[i]).id == id
}

/// The surfaces that are redrawn, out of `surfaces` and in their order: those that can be, each
/// where it is listed first.
pub open spec fn due(
    surfaces: Seq<Surface>,
    frames: Map<u64, FrameStatus>,
    known: Map<u64, u64>,
) -> Seq<Surface>
    decreases surfaces.len(),
{
    if surfaces.len() == 0 {
        Seq::empty()
    } else {
        let earlier = surfaces.drop_last();
        let last = surfaces.last();
        if can_redraw(frames, known, last.id) && !mentions(earlier, last.id) {
            due(earlier, frames, known).push(last)
        } else {
            due(earlier, frames, known)
        }
    }
}

/// The frame table once the surfaces that are due were redrawn: they start anew.
pub open spec fn swept(
    surfaces: Seq<Surface>,
    frames: Map<u64, FrameStatus>,
    known: Map<u64, u64>,
) -> Map<u64, FrameStatus> {
    frames.filter_keys(|id: u64| !(mentions(surfaces, id) && can_redraw(frames, known, id)))
}

/// What is done to redraw `surfaces`: for each, the next frame callback is asked for, and the
/// application is told to redraw.
pub open spec fn redraw_outputs<P>(surfaces: Seq<Surface>) -> Seq<Output<P>>
    decreases surfaces.len(),
{
    if surfaces.len() == 0 {
        Seq::empty()
    } else {
        redraw_outputs::<P>(surfaces.drop_last()) + seq![
            Output::RequestFrame(surfaces.last().id),
            Output::Send(Control::Winit(surfaces.last().address, WindowEvent::RedrawRequested)),
        ]
    }
}

/// The message in which an event is forwarded.
pub open spec fn forwarded<P>(event: SctkEvent<P>) -> Control<P> {
    match event {
        SctkEvent::Winit(window, e) => Control::Winit(window, e),
        other => Control::PlatformSpecific(other),
    }
}

/// The layer surface of whose creation an event tells, if it tells of one.
pub open spec fn created<P>(event: SctkEvent<P>) -> Option<u64> {
    match event {
        SctkEvent::LayerSurfaceEvent { variant: LayerSurfaceEventVariant::Created(_), id } => Some(
            id,
        ),
        _ => None,
    }
}

/// The frame table once `events` were forwarded: each created layer surface counts as having
/// received a frame, for else its first one can take long to come.
pub open spec fn frames_after<P>(
    frames: Map<u64, FrameStatus>,
    events: Seq<SctkEvent<P>>,
) -> Map<u64, FrameStatus>
    decreases events.len(),
{
    if events.len() == 0 {
        frames
    } else {
        let before = frames_after(frames, events.drop_last());
        match created(events.last()) {
            Some(id) => before.insert(id, received(before.get(id))),
            None => before,
        }
    }
}

impl<P, I> SctkStateView<P, I> {
    /// All surfaces with a role of their own, in the order in which they are redrawn.
    pub open spec fn listed(self) -> Seq<Surface> {
        self.layer_surfaces + self.popups + self.lock_surfaces
    }

    /// The surfaces that a turn redraws.
    pub open spec fn redrawn(self) -> Seq<Surface> {
        due(self.listed(), self.frame_status, self.id_map)
    }

    /// What a turn does outside the state: redraws, then the events in their order, then, if there
    /// was any of either, a wake-up.
    pub open spec fn turn_outputs(self) -> Seq<Output<P>> {
        redraw_outputs::<P>(self.redrawn()) + self.sctk_events.map_values(
            |e: SctkEvent<P>| Output::Send(forwarded(e)),
        ) + (if self.redrawn().len() > 0 || self.sctk_events.len() > 0 {
            seq![Output::WakeUp]
        } else {
            Seq::empty()
        })
    }

    /// The state after a turn.
    pub open spec fn after_turn(self) -> Self {
        SctkStateView {
            frame_status: frames_after(
                swept(self.listed(), self.frame_status, self.id_map),
                self.sctk_events,
            ),
            sctk_events: Seq::empty(),
            ..self
        }
    }
}

/// Taking one more surface into account, where it can be redrawn now.
proof fn lemma_sweep_step(
    surfaces: Seq<Surface>,
    i: int,
    frames: Map<u64, FrameStatus>,
    known: Map<u64, u64>,
)
    requires
        0 <= i < surfaces.len(),
    ensures
        ({
            let now = swept(surfaces.take(i), frames, known);
            let s = surfaces[i];
            if can_redraw(now, known, s.id) {
                &&& due(surfaces.take(i + 1), frames, known) == due(
                    surfaces.take(i),
                    frames,
                    known,
                ).push(s)
                &&& swept(surfaces.take(i + 1), frames, known) == now.remove(s.id)
            } else {
                &&& due(surfaces.take(i + 1), frames, known) == due(
                    surfaces.take(i),
                    frames,
                    known,
                )
                &&& swept(surfaces.take(i + 1), frames, known) == now
            }
        }),
{
    let earlier = surfaces.take(i);
    let later = surfaces.take(i + 1);
    let s = surfaces[i];
    assert(later.drop_last() =~= earlier);
    assert(later.last() == s);
    assert forall|id: u64| #[trigger] mentions(later, id) <==> mentions(earlier, id) || id
        == s.id by {
        assert(later[i] == s);
        if mentions(earlier, id) {
            let j = choose|j: int| 0 <= j < earlier.len() && (#[trigger] earlier[j]).id == id;
            assert(later[j] == earlier[j]);
        }
        if mentions(later, id) {
            let j = choose|j: int| 0 <= j < later.len() && (#[trigger] later[j]).id == id;
            if j < i {
                assert(earlier[j] == later[j]);
            }
        }
    }
    let now = swept(earlier, frames, known);
    assert(can_redraw(now, known, s.id) <==> can_redraw(frames, known, s.id) && !mentions(
        earlier,
        s.id,
    ));
    if can_redraw(now, known, s.id) {
        assert(swept(later, frames, known) =~= now.remove(s.id));
    } else {
        assert(swept(later, frames, known) =~= now);
    }
}

impl<P, I> SctkState<P, I> {
    /// All surfaces with a role of their own, in the order in which they are redrawn.
    fn list_surfaces(&self) -> (surfaces: Vec<Surface>)
        ensures
            surfaces@ == self@.listed(),
    {
        let mut surfaces: Vec<Surface> = Vec::new();
        for i in 0..self.layer_surfaces.len()
            invariant
                surfaces@ == self.layer_surfaces@.take(i as int),
        {
            surfaces.push(self.layer_surfaces[i]);
        }
        for i in 0..self.popups.len()
            invariant
                surfaces@ == self.layer_surfaces@ + self.popups@.take(i as int),
        {
            surfaces.push(self.popups[i]);
        }
        for i in 0..self.lock_surfaces.len()
            invariant
                surfaces@ == self.layer_surfaces@ + self.popups@ + self.lock_surfaces@.take(
                    i as int,
                ),
        {
            surfaces.push(self.lock_surfaces[i]);
        }
        assert(self.lock_surfaces@.take(self.lock_surfaces@.len() as int) =~= self.lock_surfaces@);
        surfaces
    }

    /// Redraws the surfaces that are ready and forwards the collected events. Returns what is to
    /// be done outside the state, in order.
    pub fn turn(&mut self) -> (outputs: Vec<Output<P>>)
        ensures
            outputs@ == old(self)@.turn_outputs(),
            final(self)@ == old(self)@.after_turn(),
    {
        let ghost before = self@;
        let mut outputs: Vec<Output<P>> = Vec::new();
        let mut wake_up = !self.sctk_events.is_empty();

        let surfaces = self.list_surfaces();
        assert(surfaces@.take(0) =~= Seq::empty());
        assert(swept(surfaces@.take(0), before.frame_status, before.id_map)
            =~= before.frame_status);
        for i in 0..surfaces.len()
            invariant
                surfaces@ == before.listed(),
                self@ == (SctkStateView {
                    frame_status: swept(
                        surfaces@.take(i as int),
                        before.frame_status,
                        before.id_map,
                    ),
                    ..before
                }),
                outputs@ == redraw_outputs::<P>(
                    due(surfaces@.take(i as int), before.frame_status, before.id_map),
                ),
                wake_up == (before.sctk_events.len() > 0 || due(
                    surfaces@.take(i as int),
                    before.frame_status,
                    before.id_map,
                ).len() > 0),
        {
            let s = surfaces[i];
            proof {
                lemma_sweep_step(surfaces@, i as int, before.frame_status, before.id_map);
            }
            let ready = match self.frame_status.get(&s.id) {
                Some(status) => *status == FrameStatus::Ready,
                None => false,
            };
            if ready && self.id_map.contains_key(&s.id) {
                wake_up = true;
                outputs.push(Output::RequestFrame(s.id));
                self.frame_status.remove(&s.id);
                outputs.push(
                    Output::Send(Control::Winit(window_id(s.address), WindowEvent::RedrawRequested)),
                );
                proof {
                    let earlier = due(
                        surfaces@.take(i as int),
                        before.frame_status,
                        before.id_map,
                    );
                    assert(earlier.push(s).drop_last() =~= earlier);
                }
            }
        }
        assert(surfaces@.take(surfaces@.len() as int) =~= surfaces@);

        let ghost redraws = outputs@;
        let ghost frames = self.frame_status@;
        let ghost forward = |e: SctkEvent<P>| Output::Send(forwarded(e));
        let mut events: Vec<SctkEvent<P>> = Vec::new();
        std::mem::swap(&mut events, &mut self.sctk_events);
        assert(before.sctk_events.take(0) =~= Seq::empty());
        assert(before.sctk_events.take(0).map_values(forward) =~= Seq::empty());
        for e in it: events.into_iter()
            invariant
                it.seq() == before.sctk_events,
                forward == (|e: SctkEvent<P>| Output::Send(forwarded(e))),
                self@ == (SctkStateView {
                    frame_status: frames_after(frames, before.sctk_events.take(it.index() as int)),
                    sctk_events: Seq::empty(),
                    ..before
                }),
                outputs@ == redraws + before.sctk_events.take(it.index() as int).map_values(
                    forward,
                ),
        {
            let ghost n = it.index() as int;
            proof {
                let later = before.sctk_events.take(n + 1);
                assert(later.drop_last() =~= before.sctk_events.take(n));
                assert(later.last() == e);
                assert(later.map_values(forward) =~= before.sctk_events.take(n).map_values(
                    forward,
                ).push(forward(e)));
            }
            match e {
                SctkEvent::Winit(window, e) => {
                    outputs.push(Output::Send(Control::Winit(window, e)));
                },
                other => {
                    if let SctkEvent::LayerSurfaceEvent {
                        variant: LayerSurfaceEventVariant::Created(_),
                        id,
                    } = &other {
                        receive_frame(&mut self.frame_status, *id);
                    }
                    outputs.push(Output::Send(Control::PlatformSpecific(other)));
                },
            }
        }
        assert(before.sctk_events.take(before.sctk_events.len() as int) =~= before.sctk_events);
        if wake_up {
            outputs.push(Output::WakeUp);
        }
        outputs
    }
}

/// Where in `surfaces` those that are due stand.
pub(crate) proof fn lemma_due_positions(
    surfaces: Seq<Surface>,
    frames: Map<u64, FrameStatus>,
    known: Map<u64, u64>,
) -> (positions: Seq<int>)
    ensures
        positions.len() == due(surfaces, frames, known).len(),
        first_places(surfaces, due(surfaces, frames, known), positions),
        forall|i: int|
            0 <= i < due(surfaces, frames, known).len() ==> can_redraw(
                frames,
                known,
                (#[trigger] due(surfaces, frames, known)[i]).id,
            ),
    decreases surfaces.len(),
{
    if surfaces.len() == 0 {
        Seq::empty()
    } else {
        let earlier = surfaces.drop_last();
        let rest = lemma_due_positions(earlier, frames, known);
        assert forall|i: int| 0 <= i < rest.len() implies earlier.take(#[trigger] rest[i])
            == surfaces.take(rest[i]) by {
            assert(earlier.take(rest[i]) =~= surfaces.take(rest[i]));
        }
        let last = surfaces.last();
        if can_redraw(frames, known, last.id) && !mentions(earlier, last.id) {
            assert(surfaces.take(surfaces.len() - 1) =~= earlier);
            rest.push(surfaces.len() - 1)
        } else {
            rest
        }
    }
}

/// `chosen` is a part of `surfaces`, in the same order, with each surface taken from the place at
/// which it is listed first; `positions` are these places.
pub open spec fn first_places(
    surfaces: Seq<Surface>,
    chosen: Seq<Surface>,
    positions: Seq<int>,
) -> bool {
    &&& positions.len() == chosen.len()
    &&& forall|i: int|
        0 <= i < positions.len() ==> {
            &&& 0 <= #[trigger] positions[i] < surfaces.len()
            &&& surfaces[positions[i]] == chosen[i]
            &&& !mentions(surfaces.take(positions[i]), chosen[i].id)
        }
    &&& forall|i: int, j: int|
        0 <= i < j < positions.len() ==> (#[trigger] positions[i]) < (#[trigger] positions[j])
}

/// The surfaces that are redrawn come in the order in which they are listed, each from the place
/// where it is listed first.
pub proof fn law_redraws_keep_the_order(
    surfaces: Seq<Surface>,
    frames: Map<u64, FrameStatus>,
    known: Map<u64, u64>,
)
    ensures
        exists|positions: Seq<int>| first_places(surfaces, due(surfaces, frames, known), positions),
{
    let positions = lemma_due_positions(surfaces, frames, known);
    assert(first_places(surfaces, due(surfaces, frames, known), positions));
}

/// A surface is redrawn exactly when it is listed, ready, and known to the application.
pub proof fn law_redrawn_iff_ready(
    surfaces: Seq<Surface>,
    frames: Map<u64, FrameStatus>,
    known: Map<u64, u64>,
    id: u64,
)
    ensures
        mentions(due(surfaces, frames, known), id) <==> mentions(surfaces, id) && can_redraw(
            frames,
            known,
            id,
        ),
    decreases surfaces.len(),
{
    if surfaces.len() > 0 {
        let earlier = surfaces.drop_last();
        let last = surfaces.last();
        let rest = due(earlier, frames, known);
        law_redrawn_iff_ready(earlier, frames, known, id);
        lemma_mentions_push(earlier, last, id);
        assert(earlier.push(last) =~= surfaces);
        lemma_mentions_push(rest, last, id);
    }
}

proof fn lemma_mentions_push(surfaces: Seq<Surface>, last: Surface, id: u64)
    ensures
        mentions(surfaces.push(last), id) <==> mentions(surfaces, id) || last.id == id,
{
    let all = surfaces.push(last);
    assert(all[surfaces.len() as int] == last);
    if mentions(surfaces, id) {
        let i = choose|i: int| 0 <= i < surfaces.len() && (#[trigger] surfaces[i]).id == id;
        assert(all[i].id == id);
    }
    if mentions(all, id) && last.id != id {
        let i = choose|i: int| 0 <= i < all.len() && (#[trigger] all[i]).id == id;
        assert(surfaces[i].id == id);
    }
}

/// No surface is redrawn twice in a turn.
pub proof fn law_redrawn_once(
    surfaces: Seq<Surface>,
    frames: Map<u64, FrameStatus>,
    known: Map<u64, u64>,
    i: int,
    j: int,
)
    requires
        0 <= i < j < due(surfaces, frames, known).len(),
    ensures
        due(surfaces, frames, known)[i].id != due(surfaces, frames, known)[j].id,
{
    let chosen = due(surfaces, frames, known);
    let positions = lemma_due_positions(surfaces, frames, known);
    let before = surfaces.take(positions[j]);
    assert(positions[i] < positions[j]);
    assert(before[positions[i]] == chosen[i]);
}

proof fn lemma_redraw_outputs<P>(surfaces: Seq<Surface>)
    ensures
        redraw_outputs::<P>(surfaces).len() == 2 * surfaces.len(),
        forall|k: int|
            0 <= k < surfaces.len() ==> {
                &&& redraw_outputs::<P>(surfaces)[2 * k] == Output::<P>::RequestFrame(
                    (#[trigger] surfaces[k]).id,
                )
                &&& redraw_outputs::<P>(surfaces)[2 * k + 1] == Output::Send(
                    Control::<P>::Winit(surfaces[k].address, WindowEvent::RedrawRequested),
                )
            },
    decreases surfaces.len(),
{
    if surfaces.len() > 0 {
        let earlier = surfaces.drop_last();
        lemma_redraw_outputs::<P>(earlier);
        assert forall|k: int| 0 <= k < surfaces.len() implies {
            &&& redraw_outputs::<P>(surfaces)[2 * k] == Output::<P>::RequestFrame(
                (#[trigger] surfaces[k]).id,
            )
            &&& redraw_outputs::<P>(surfaces)[2 * k + 1] == Output::Send(
                Control::<P>::Winit(surfaces[k].address, WindowEvent::RedrawRequested),
            )
        } by {
            if k < earlier.len() {
                assert(earlier[k] == surfaces[k]);
            }
        }
    }
}

/// A turn does four things in a fixed order: for each redrawn surface it asks for the next frame
/// callback and then has the application redraw; then it forwards each collected event, once and
/// in the order in which they were collected; and then, if it did any of this, it wakes the
/// application up. After it no event is left over.
pub proof fn law_turn_does_this_in_order<P, I>(before: SctkStateView<P, I>)
    ensures
        ({
            let outputs = before.turn_outputs();
            let n = before.redrawn().len() as int;
            let m = before.sctk_events.len() as int;
            &&& outputs.len() == 2 * n + m + (if n + m > 0 {
                1int
            } else {
                0
            })
            &&& forall|k: int|
                0 <= k < n ==> {
                    &&& outputs[2 * k] == Output::<P>::RequestFrame(
                        (#[trigger] before.redrawn()[k]).id,
                    )
                    &&& outputs[2 * k + 1] == Output::Send(
                        Control::<P>::Winit(
                            before.redrawn()[k].address,
                            WindowEvent::RedrawRequested,
                        ),
                    )
                }
            &&& forall|k: int|
                0 <= k < m ==> outputs[2 * n + k] == Output::Send(
                    forwarded(#[trigger] before.sctk_events[k]),
                )
            &&& n + m > 0 ==> outputs.last() == Output::<P>::WakeUp
            &&& before.after_turn().sctk_events == Seq::<SctkEvent<P>>::empty()
        }),
{
    lemma_redraw_outputs::<P>(before.redrawn());
}

/// A turn wakes the application up exactly when it sent it a message.
pub proof fn law_turn_wakes_iff_it_sends<P, I>(before: SctkStateView<P, I>)
    ensures
        before.turn_outputs().contains(Output::WakeUp) <==> exists|message: Control<P>|
            before.turn_outputs().contains(Output::Send(message)),
{
    law_turn_does_this_in_order(before);
    let outputs = before.turn_outputs();
    let n = before.redrawn().len() as int;
    let m = before.sctk_events.len() as int;
    if n > 0 {
        let surface = before.redrawn()[0];
        let message = Control::<P>::Winit(surface.address, WindowEvent::RedrawRequested);
        assert(outputs[1] == Output::Send(message));
        assert(outputs.contains(Output::Send(message)));
        assert(outputs[outputs.len() - 1] == Output::<P>::WakeUp);
    } else if m > 0 {
        let message = forwarded(before.sctk_events[0]);
        assert(outputs[2 * n] == Output::Send(message));
        assert(outputs.contains(Output::Send(message)));
        assert(outputs[outputs.len() - 1] == Output::<P>::WakeUp);
    }
}

/// Forwarding loses nothing: two events are forwarded in the same message only if they are the
/// same. Events of windows are never wrapped as events of the platform.
pub proof fn law_forwarding_loses_nothing<P>(a: SctkEvent<P>, b: SctkEvent<P>)
    ensures
        forwarded(a) == forwarded(b) ==> a == b,
        forwarded(a) matches Control::PlatformSpecific(e) ==> e == a && !(e is Winit),
{
}

/// One of `events` tells of the creation of the layer surface `id`.
pub open spec fn tells_of_creation<P>(events: Seq<SctkEvent<P>>, id: u64) -> bool {
    exists|i: int| 0 <= i < events.len() && created(#[trigger] events[i]) == Some(id)
}

/// Forwarding events gives each layer surface that they create one frame, however often they tell
/// of it, and leaves all other surfaces alone.
pub proof fn law_created_surfaces_receive_a_frame<P>(
    frames: Map<u64, FrameStatus>,
    events: Seq<SctkEvent<P>>,
    id: u64,
)
    ensures
        frames_after(frames, events).get(id) == (if tells_of_creation(events, id) {
            Some(received(frames.get(id)))
        } else {
            frames.get(id)
        }),
    decreases events.len(),
{
    if events.len() > 0 {
        let earlier = events.drop_last();
        law_created_surfaces_receive_a_frame(frames, earlier, id);
        if tells_of_creation(earlier, id) {
            let i = choose|i: int|
                0 <= i < earlier.len() && created(#[trigger] earlier[i]) == Some(id);
            assert(created(events[i]) == Some(id));
        }
        if tells_of_creation(events, id) && created(events.last()) != Some(id) {
            let i = choose|i: int| 0 <= i < events.len() && created(#[trigger] events[i]) == Some(id);
            assert(created(earlier[i]) == Some(id));
        }
        if created(events.last()) == Some(id) {
            assert(created(events[events.len() - 1]) == Some(id));
        }
    }
}

/// A turn that follows another with nothing in between redraws exactly the surfaces whose creation
/// the first one forwarded while a redraw of them was pending. In particular it redraws none that
/// the first one has redrawn.
pub proof fn law_next_turn<P, I>(before: SctkStateView<P, I>, id: u64)
    ensures
        mentions(before.after_turn().redrawn(), id) <==> {
            &&& mentions(before.listed(), id)
            &&& before.id_map.contains_key(id)
            &&& before.frame_status.get(id) == Some(FrameStatus::RequestedRedraw)
            &&& tells_of_creation(before.sctk_events, id)
        },
        mentions(before.redrawn(), id) ==> !mentions(before.after_turn().redrawn(), id),
{
    let after = before.after_turn();
    let listed = before.listed();
    assert(after.listed() == listed);
    law_redrawn_iff_ready(listed, before.frame_status, before.id_map, id);
    law_redrawn_iff_ready(listed, after.frame_status, after.id_map, id);
    let cleared = swept(listed, before.frame_status, before.id_map);
    law_created_surfaces_receive_a_frame(cleared, before.sctk_events, id);
    if mentions(listed, id) && can_redraw(before.frame_status, before.id_map, id) {
        assert(!cleared.contains_key(id));
    } else {
        assert(cleared.get(id) == before.frame_status.get(id));
    }
}

} // verus!
