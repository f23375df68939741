//! What a turn does.

use crate::event::{Control, LayerSurfaceEventVariant, Output, SctkEvent, WindowEvent};
use crate::frame::FrameStatus;
use crate::laws::lemma_ascending_unique;
use crate::state::SctkStateView;
use crate::turn::{
    can_redraw, created, due, forwarded, law_created_surfaces_receive_a_frame,
    law_redrawn_iff_ready, law_turn_does_this_in_order, lemma_due_positions, mentions, swept,
    tells_of_creation,
};
use vstd::prelude::*;

verus! {

proof fn lemma_mentions_listed<P, I>(before: SctkStateView<P, I>, id: u64)
    ensures
        mentions(before.listed(), id) <==> {
            ||| exists|i: int|
                0 <= i < before.layer_surfaces.len() && (#[trigger] before.layer_surfaces[i]).id
                    == id
            ||| exists|i: int| 0 <= i < before.popups.len() && (#[trigger] before.popups[i]).id == id
            ||| exists|i: int|
                0 <= i < before.lock_surfaces.len() && (#[trigger] before.lock_surfaces[i]).id == id
        },
{
    let all = before.listed();
    let (m, n) = (before.layer_surfaces.len() as int, before.popups.len() as int);
    assert forall|i: int| 0 <= i < m implies (#[trigger] before.layer_surfaces[i]) == all[i] by {}
    assert forall|i: int| 0 <= i < n implies (#[trigger] before.popups[i]) == all[m + i] by {}
    assert forall|i: int| 0 <= i < before.lock_surfaces.len() implies (
    #[trigger] before.lock_surfaces[i]) == all[m + n + i] by {}
    if mentions(all, id) {
        let k = choose|k: int| 0 <= k < all.len() && (#[trigger] all[k]).id == id;
        if k < m {
            assert(before.layer_surfaces[k].id == id);
        } else if k < m + n {
            assert(before.popups[k - m].id == id);
        } else {
            assert(before.lock_surfaces[k - m - n].id == id);
        }
    }
}

/// A turn asks for the next frame of a surface exactly if it is one of the layer surfaces, one of
/// the popups or one of the lock surfaces, whichever of them, and it is ready, and the application
/// knows it.
pub proof fn law_turn_asks_for_frames<P, I>(before: SctkStateView<P, I>, id: u64)
    ensures
        before.turn_outputs().contains(Output::RequestFrame(id)) <==> {
            &&& {
                ||| exists|i: int|
                    0 <= i < before.layer_surfaces.len() && (#[trigger] before.layer_surfaces[i]).id
                        == id
                ||| exists|i: int|
                    0 <= i < before.popups.len() && (#[trigger] before.popups[i]).id == id
                ||| exists|i: int|
                    0 <= i < before.lock_surfaces.len() && (#[trigger] before.lock_surfaces[i]).id
                        == id
            }
            &&& before.frame_status.contains_key(id)
            &&& before.frame_status[id] == FrameStatus::Ready
            &&& before.id_map.contains_key(id)
        },
{
    let outputs = before.turn_outputs();
    let chosen = before.redrawn();
    let n = chosen.len() as int;
    let m = before.sctk_events.len() as int;
    law_turn_does_this_in_order(before);
    law_redrawn_iff_ready(before.listed(), before.frame_status, before.id_map, id);
    lemma_mentions_listed(before, id);
    if mentions(chosen, id) {
        let k = choose|k: int| 0 <= k < chosen.len() && (#[trigger] chosen[k]).id == id;
        assert(outputs[2 * k] == Output::<P>::RequestFrame(id));
    }
    if outputs.contains(Output::RequestFrame(id)) {
        let q = choose|q: int| 0 <= q < outputs.len() && outputs[q] == Output::<P>::RequestFrame(id);
        if q < 2 * n {
            let s = chosen[q / 2];
            assert(q == 2 * (q / 2) || q == 2 * (q / 2) + 1);
            assert(s.id == id);
        } else if q < 2 * n + m {
            let e = before.sctk_events[q - 2 * n];
            assert(outputs[2 * n + (q - 2 * n)] == Output::Send(forwarded(e)));
        }
    }
}

/// What a turn does, in order, where `positions` are the places among all layer surfaces, popups
/// and lock surfaces, in that order, of those that are ready, known to the application, and not
/// listed before: at each it asks for the next frame and has the application redraw the window of
/// that surface. Then it forwards the collected events, those of windows as such and all others as
/// events of the platform. At the end it wakes the application up, unless it had nothing to do.
pub proof fn law_turn_step_by_step<P, I>(before: SctkStateView<P, I>, positions: Seq<int>)
    requires
        forall|a: int, b: int|
            0 <= a < b < positions.len() ==> (#[trigger] positions[a]) < (#[trigger] positions[b]),
        forall|k: int| #[trigger]
            positions.contains(k) <==> ({
                let all = before.layer_surfaces + before.popups + before.lock_surfaces;
                &&& 0 <= k < all.len()
                &&& before.frame_status.contains_key(all[k].id)
                &&& before.frame_status[all[k].id] == FrameStatus::Ready
                &&& before.id_map.contains_key(all[k].id)
                &&& forall|j: int| 0 <= j < k ==> (#[trigger] all[j]).id != all[k].id
            }),
    ensures
        ({
            let all = before.layer_surfaces + before.popups + before.lock_surfaces;
            let outputs = before.turn_outputs();
            let n = positions.len() as int;
            let m = before.sctk_events.len() as int;
            &&& outputs.len() == 2 * n + m + (if n + m > 0 {
                1int
            } else {
                0
            })
            &&& forall|k: int|
                0 <= k < n ==> {
                    &&& outputs[2 * k] == Output::<P>::RequestFrame(
                        all[#[trigger] positions[k]].id,
                    )
                    &&& outputs[2 * k + 1] == Output::Send(
                        Control::<P>::Winit(all[positions[k]].address, WindowEvent::RedrawRequested),
                    )
                }
            &&& forall|k: int|
                0 <= k < m ==> outputs[2 * n + k] == (match #[trigger] before.sctk_events[k] {
                    SctkEvent::Winit(window, e) => Output::Send(Control::Winit(window, e)),
                    e => Output::Send(Control::PlatformSpecific(e)),
                })
            &&& n + m > 0 ==> outputs.last() == Output::<P>::WakeUp
        }),
{
    let all = before.listed();
    assert(all == before.layer_surfaces + before.popups + before.lock_surfaces);
    let (frames, known) = (before.frame_status, before.id_map);
    let chosen = due(all, frames, known);
    let places = lemma_due_positions(all, frames, known);
    assert forall|k: int| #[trigger] positions.contains(k) <==> places.contains(k) by {
        if places.contains(k) {
            let t = choose|t: int| 0 <= t < places.len() && places[t] == k;
            assert(all[k] == chosen[t]);
            assert(can_redraw(frames, known, chosen[t].id));
            assert forall|j: int| 0 <= j < k implies (#[trigger] all[j]).id != all[k].id by {
                assert(all.take(k)[j] == all[j]);
            }
        }
        if positions.contains(k) {
            let id = all[k].id;
            assert(mentions(all, id));
            law_redrawn_iff_ready(all, frames, known, id);
            let t = choose|t: int| 0 <= t < chosen.len() && (#[trigger] chosen[t]).id == id;
            let p = places[t];
            assert(all[p].id == id);
            if k < p {
                assert(all.take(p)[k].id == id);
            }
            assert(p == k);
        }
    }
    lemma_ascending_unique(positions, places);
    law_turn_does_this_in_order(before);
    assert forall|k: int| 0 <= k < positions.len() implies all[#[trigger] positions[k]]
        == before.redrawn()[k] by {
        assert(places[k] == positions[k]);
    }
}

/// A surface that a turn redraws starts anew. If the collected events tell of the creation of a
/// layer surface, it then counts as having received a frame. All other surfaces keep their status.
pub proof fn law_frame_status_after_a_turn<P, I>(before: SctkStateView<P, I>, id: u64)
    ensures
        ({
            let after = before.after_turn();
            let redrawn = before.turn_outputs().contains(Output::RequestFrame(id));
            let status = if redrawn || !before.frame_status.contains_key(id) {
                None
            } else {
                Some(before.frame_status[id])
            };
            let is_created = exists|k: int|
                0 <= k < before.sctk_events.len() && (
                #[trigger] before.sctk_events[k] matches SctkEvent::LayerSurfaceEvent {
                    variant: LayerSurfaceEventVariant::Created(_),
                    id: new,
                } && new == id);
            &&& after.frame_status.contains_key(id) <==> status is Some || is_created
            &&& after.frame_status.contains_key(id) ==> after.frame_status[id] == (
            if !is_created {
                status->0
            } else if status is None {
                FrameStatus::Received
            } else if status->0 == FrameStatus::RequestedRedraw {
                FrameStatus::Ready
            } else {
                status->0
            })
        }),
{
    law_turn_asks_for_frames(before, id);
    lemma_mentions_listed(before, id);
    let cleared = swept(before.listed(), before.frame_status, before.id_map);
    law_created_surfaces_receive_a_frame(cleared, before.sctk_events, id);
    if tells_of_creation(before.sctk_events, id) {
        let k = choose|k: int|
            0 <= k < before.sctk_events.len() && created(#[trigger] before.sctk_events[k]) == Some(
                id,
            );
        assert(before.sctk_events[k] matches SctkEvent::LayerSurfaceEvent {
            variant: LayerSurfaceEventVariant::Created(_),
            id: new,
        } && new == id);
    }
    let is_created = exists|k: int|
        0 <= k < before.sctk_events.len() && (
        #[trigger] before.sctk_events[k] matches SctkEvent::LayerSurfaceEvent {
            variant: LayerSurfaceEventVariant::Created(_),
            id: new,
        } && new == id);
    if is_created {
        let k = choose|k: int|
            0 <= k < before.sctk_events.len() && (
            #[trigger] before.sctk_events[k] matches SctkEvent::LayerSurfaceEvent {
                variant: LayerSurfaceEventVariant::Created(_),
                id: new,
            } && new == id);
        assert(created(before.sctk_events[k]) == Some(id));
    }
    assert(is_created == tells_of_creation(before.sctk_events, id));
    if mentions(before.listed(), id) && can_redraw(before.frame_status, before.id_map, id) {
        assert(!cleared.contains_key(id));
    } else {
        assert(cleared.get(id) == before.frame_status.get(id));
    }
}

/// A turn leaves no event behind, and touches nothing but events and frames.
pub proof fn law_turn_touches_events_and_frames_only<P, I>(before: SctkStateView<P, I>)
    ensures
        ({
            let after = before.after_turn();
            &&& after.sctk_events.len() == 0
            &&& after == (SctkStateView {
                sctk_events: after.sctk_events,
                frame_status: after.frame_status,
                ..before
            })
        }),
{
}

} // verus!
