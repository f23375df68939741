//! What the requests of the application do.

use crate::action::{
    children, destroy_effects, lemma_children, lemma_remove_in_turn, remove_in_turn, subsurface_ids,
    window_ids,
};
use crate::event::{Action, Effect, Output, SubsurfaceEventVariant};
use crate::frame::{received, requested, FrameStatus};
use crate::laws::lemma_ascending_unique;
use crate::laws::turns::law_turn_asks_for_frames;
use crate::state::SctkStateView;
use crate::surface::{Gravity, PhysicalSize, SctkSubsurface, Shift};
use vstd::prelude::*;

verus! {

proof fn lemma_window_at<P, I>(before: SctkStateView<P, I>, id: u64, i: int)
    requires
        0 <= i < before.windows.len(),
        before.windows[i].id == id,
        forall|j: int| 0 <= j < i ==> (#[trigger] before.windows[j]).id != id,
    ensures
        before.window_at(id) == Some(i),
{
    let ids = window_ids(before.windows);
    ids.index_of_first_ensures(id);
    assert(ids[i] == id);
    assert(forall|j: int| 0 <= j < ids.len() ==> ids[j] == before.windows[j].id);
}

proof fn lemma_subsurface_at<P, I>(before: SctkStateView<P, I>, id: u64, i: int)
    requires
        0 <= i < before.subsurfaces.len(),
        before.subsurfaces[i].id == id,
        forall|j: int| 0 <= j < i ==> (#[trigger] before.subsurfaces[j]).id != id,
    ensures
        before.subsurface_at(id) == Some(i),
{
    let ids = subsurface_ids(before.subsurfaces);
    ids.index_of_first_ensures(id);
    assert(ids[i] == id);
    assert(forall|j: int| 0 <= j < ids.len() ==> ids[j] == before.subsurfaces[j].id);
}

proof fn lemma_no_subsurface<P, I>(before: SctkStateView<P, I>, id: u64)
    requires
        forall|j: int|
            0 <= j < before.subsurfaces.len() ==> (#[trigger] before.subsurfaces[j]).id != id,
    ensures
        before.subsurface_at(id) is None,
{
    let ids = subsurface_ids(before.subsurfaces);
    ids.index_of_first_ensures(id);
    assert(!ids.contains(id));
}

proof fn lemma_rest<T>(s: Seq<T>, positions: Seq<int>, k: int, c: int)
    requires
        forall|i: int, j: int|
            0 <= i < j < positions.len() ==> (#[trigger] positions[i]) < (#[trigger] positions[j]),
        positions.len() > 0 ==> positions[0] >= 0 && positions.last() + positions.len() <= s.len(),
        0 <= k < s.len() - positions.len(),
        0 <= c <= positions.len(),
        c > 0 ==> positions[c - 1] <= k,
        c < positions.len() ==> k < positions[c],
    ensures
        remove_in_turn(s, positions)[k] == s[k + c],
    decreases positions.len(),
{
    if positions.len() > 0 {
        let n = positions.len() as int;
        let earlier = positions.drop_last();
        let last = positions.last();
        assert(forall|i: int| 0 <= i < n - 1 ==> earlier[i] == positions[i]);
        if n > 1 {
            assert(earlier.last() < last);
        }
        assert(positions[0] <= last);
        lemma_remove_in_turn(s, earlier);
        if k < last {
            lemma_rest(s, earlier, k, c);
        } else {
            if c < n {
                assert(positions[c] <= last);
            }
            lemma_rest(s, earlier, k + 1, n - 1);
        }
    }
}

proof fn lemma_destroy_effects<A, I>(gone: Seq<SctkSubsurface>)
    ensures
        destroy_effects::<A, I>(gone).len() == 2 * gone.len(),
        forall|k: int|
            0 <= k < gone.len() ==> {
                &&& destroy_effects::<A, I>(gone)[2 * k] == Effect::<A, I>::RemoveIcedSubsurface(
                    (#[trigger] gone[k]).instance.wl_surface,
                )
                &&& destroy_effects::<A, I>(gone)[2 * k + 1] == Effect::<A, I>::SendEvent(
                    SubsurfaceEventVariant::Destroyed(gone[k].instance),
                )
            },
    decreases gone.len(),
{
    if gone.len() > 0 {
        let earlier = gone.drop_last();
        lemma_destroy_effects::<A, I>(earlier);
        assert forall|k: int| 0 <= k < gone.len() implies {
            &&& destroy_effects::<A, I>(gone)[2 * k] == Effect::<A, I>::RemoveIcedSubsurface(
                (#[trigger] gone[k]).instance.wl_surface,
            )
            &&& destroy_effects::<A, I>(gone)[2 * k + 1] == Effect::<A, I>::SendEvent(
                SubsurfaceEventVariant::Destroyed(gone[k].instance),
            )
        } by {
            if k < earlier.len() {
                assert(earlier[k] == gone[k]);
            }
        }
    }
}

/// Removing a window takes the first one with its identifier out of those that are tracked,
/// wherever it stands and whatever subsurfaces it has: those before it stay where they are, and
/// those behind it move up by one place. Apart from windows and subsurfaces nothing changes.
pub proof fn law_removed_window_leaves_no_gap<P, I, A>(
    before: SctkStateView<P, I>,
    id: u64,
    i: int,
)
    requires
        0 <= i < before.windows.len(),
        before.windows[i].id == id,
        forall|j: int| 0 <= j < i ==> (#[trigger] before.windows[j]).id != id,
    ensures
        ({
            let after = before.after_action(Action::<A, I>::RemoveWindow(id));
            &&& after.windows.len() == before.windows.len() - 1
            &&& forall|j: int| 0 <= j < i ==> #[trigger] after.windows[j] == before.windows[j]
            &&& forall|j: int|
                i <= j < after.windows.len() ==> #[trigger] after.windows[j] == before.windows[j
                    + 1]
            &&& after == (SctkStateView {
                windows: after.windows,
                subsurfaces: after.subsurfaces,
                ..before
            })
        }),
{
    lemma_window_at(before, id, i);
}

/// A window can be removed unless one of the positions of its subsurfaces, which are those with
/// its surface for a parent, has moved out of range when its turn comes to be removed.
pub proof fn law_when_a_window_can_be_removed<P, I, A>(
    before: SctkStateView<P, I>,
    id: u64,
    i: int,
    positions: Seq<int>,
)
    requires
        0 <= i < before.windows.len(),
        before.windows[i].id == id,
        forall|j: int| 0 <= j < i ==> (#[trigger] before.windows[j]).id != id,
        forall|a: int, b: int|
            0 <= a < b < positions.len() ==> (#[trigger] positions[a]) < (#[trigger] positions[b]),
        forall|k: int| #[trigger]
            positions.contains(k) <==> 0 <= k < before.subsurfaces.len()
                && before.subsurfaces[k].instance.parent == before.windows[i].window,
    ensures
        before.accepts(Action::<A, I>::RemoveWindow(id)) <==> forall|j: int|
            0 <= j < positions.len() ==> #[trigger] positions[j] < before.subsurfaces.len() - j,
        before.can_remove_window(id) == before.accepts(Action::<A, I>::RemoveWindow(id)),
{
    lemma_positions_are_children(before, id, i, positions);
    if positions.len() > 0 {
        let n = positions.len() - 1;
        assert(positions[n] == positions.last());
        assert(forall|j: int| 0 <= j < n ==> #[trigger] positions[j] < positions[n]);
    }
}

proof fn lemma_positions_are_children<P, I>(
    before: SctkStateView<P, I>,
    id: u64,
    i: int,
    positions: Seq<int>,
)
    requires
        0 <= i < before.windows.len(),
        before.windows[i].id == id,
        forall|j: int| 0 <= j < i ==> (#[trigger] before.windows[j]).id != id,
        forall|a: int, b: int|
            0 <= a < b < positions.len() ==> (#[trigger] positions[a]) < (#[trigger] positions[b]),
        forall|k: int| #[trigger]
            positions.contains(k) <==> 0 <= k < before.subsurfaces.len()
                && before.subsurfaces[k].instance.parent == before.windows[i].window,
    ensures
        before.window_at(id) == Some(i),
        before.children_of(id) == positions,
        positions.len() > 0 ==> positions[0] >= 0,
{
    lemma_window_at(before, id, i);
    let window = before.windows[i].window;
    let found = children(before.subsurfaces, window);
    lemma_children(before.subsurfaces, window);
    assert forall|k: int| #[trigger] positions.contains(k) <==> found.contains(k) by {
        if positions.contains(k) {
            assert(before.subsurfaces[k].instance.parent == window);
        }
        if found.contains(k) {
            let a = choose|a: int| 0 <= a < found.len() && found[a] == k;
            assert(before.subsurfaces[found[a]].instance.parent == window);
        }
    }
    lemma_ascending_unique(positions, found);
    if positions.len() > 0 {
        assert(positions.contains(positions[0]));
    }
}

/// With a window, as many subsurfaces go as have its surface for a parent. The `j`-th to go is the
/// one that stood `j` places behind the `j`-th of these. For each, in order, its surface is
/// forgotten and then the application is told that it is destroyed; the others stay, in order.
pub proof fn law_subsurfaces_that_go_with_a_window<P, I, A>(
    before: SctkStateView<P, I>,
    id: u64,
    i: int,
    positions: Seq<int>,
)
    requires
        0 <= i < before.windows.len(),
        before.windows[i].id == id,
        forall|j: int| 0 <= j < i ==> (#[trigger] before.windows[j]).id != id,
        forall|a: int, b: int|
            0 <= a < b < positions.len() ==> (#[trigger] positions[a]) < (#[trigger] positions[b]),
        forall|k: int| #[trigger]
            positions.contains(k) <==> 0 <= k < before.subsurfaces.len()
                && before.subsurfaces[k].instance.parent == before.windows[i].window,
        positions.len() > 0 ==> positions.last() + positions.len() <= before.subsurfaces.len(),
    ensures
        ({
            let action = Action::<A, I>::RemoveWindow(id);
            let effects = before.effects_of(action);
            let after = before.after_action(action);
            &&& effects.len() == 2 * positions.len()
            &&& forall|j: int|
                0 <= j < positions.len() ==> {
                    &&& effects[2 * j] == Effect::<A, I>::RemoveIcedSubsurface(
                        before.subsurfaces[(#[trigger] positions[j]) + j].instance.wl_surface,
                    )
                    &&& effects[2 * j + 1] == Effect::<A, I>::SendEvent(
                        SubsurfaceEventVariant::Destroyed(
                            before.subsurfaces[positions[j] + j].instance,
                        ),
                    )
                }
            &&& after.subsurfaces.len() == before.subsurfaces.len() - positions.len()
            &&& forall|k: int, c: int|
                #![trigger after.subsurfaces[k], before.subsurfaces[k + c]]
                0 <= k < after.subsurfaces.len() && 0 <= c <= positions.len() && (c > 0
                    ==> positions[c - 1] <= k) && (c < positions.len() ==> k < positions[c])
                    ==> after.subsurfaces[k] == before.subsurfaces[k + c]
        }),
{
    lemma_positions_are_children(before, id, i, positions);
    let action = Action::<A, I>::RemoveWindow(id);
    let after = before.after_action(action);
    let gone = before.removed_with(id);
    lemma_destroy_effects::<A, I>(gone);
    lemma_remove_in_turn(before.subsurfaces, positions);
    assert forall|j: int| 0 <= j < positions.len() implies {
        let effects = before.effects_of(action);
        &&& effects[2 * j] == Effect::<A, I>::RemoveIcedSubsurface(
            before.subsurfaces[(#[trigger] positions[j]) + j].instance.wl_surface,
        )
        &&& effects[2 * j + 1] == Effect::<A, I>::SendEvent(
            SubsurfaceEventVariant::Destroyed(before.subsurfaces[positions[j] + j].instance),
        )
    } by {
        assert(gone[j] == before.subsurfaces[positions[j] + j]);
    }
    assert forall|k: int, c: int|
        #![trigger after.subsurfaces[k], before.subsurfaces[k + c]]
        0 <= k < after.subsurfaces.len() && 0 <= c <= positions.len() && (c > 0 ==> positions[c - 1]
            <= k) && (c < positions.len() ==> k < positions[c]) implies after.subsurfaces[k]
        == before.subsurfaces[k + c] by {
        lemma_rest(before.subsurfaces, positions, k, c);
    }
}

/// Tracking a window puts it, with its number and its identifier, behind those that are tracked,
/// and does nothing else.
pub proof fn law_tracked_window_comes_last<P, I, A>(
    before: SctkStateView<P, I>,
    window: u64,
    id: u64,
)
    ensures
        ({
            let action = Action::<A, I>::TrackWindow(window, id);
            let after = before.after_action(action);
            &&& before.accepts(action)
            &&& after.windows.len() == before.windows.len() + 1
            &&& after.windows.last().window == window
            &&& after.windows.last().id == id
            &&& forall|j: int|
                0 <= j < before.windows.len() ==> #[trigger] after.windows[j] == before.windows[j]
            &&& after == (SctkStateView { windows: after.windows, ..before })
            &&& before.effects_of(action).len() == 0
        }),
{
}

/// An action of the application is handed on, once, and changes nothing itself.
pub proof fn law_actions_are_handed_on<P, I, A>(before: SctkStateView<P, I>, a: A)
    ensures
        ({
            let action = Action::<A, I>::Action(a);
            let effects = before.effects_of(action);
            &&& before.accepts(action)
            &&& before.after_action(action) == before
            &&& effects.len() == 1
            &&& effects[0] == Effect::<A, I>::HandleAction(a)
        }),
{
}

/// Wherever there is a seat, whatever icon it has, a request to set the cursor sets the icon of
/// the first seat, once, and leaves the other seats alone; where there is none, it does nothing.
pub proof fn law_cursor_of_the_first_seat<P, I, A>(before: SctkStateView<P, I>, icon: I)
    ensures
        ({
            let action = Action::<A, I>::SetCursor(icon);
            let after = before.after_action(action);
            let effects = before.effects_of(action);
            &&& before.accepts(action)
            &&& after.seats.len() == before.seats.len()
            &&& before.seats.len() > 0 ==> after.seats[0].icon == Some(icon)
            &&& before.seats.len() > 0 ==> effects.len() == 1 && effects[0] == Effect::<
                A,
                I,
            >::SetCursor(icon)
            &&& before.seats.len() == 0 ==> effects.len() == 0
            &&& forall|j: int|
                0 < j < before.seats.len() ==> #[trigger] after.seats[j] == before.seats[j]
            &&& after == (SctkStateView { seats: after.seats, ..before })
        }),
{
    let after = before.after_action(Action::<A, I>::SetCursor(icon));
    if before.seats.len() == 0 {
        assert(after == before);
    }
}

/// Of two requests to set the cursor, the later one decides, as if the first had not been made.
pub proof fn law_later_cursor_wins<P, I, A>(before: SctkStateView<P, I>, first: I, second: I)
    ensures
        ({
            let one = Action::<A, I>::SetCursor(first);
            let two = Action::<A, I>::SetCursor(second);
            let between = before.after_action(one);
            &&& between.after_action(two) == before.after_action(two)
            &&& between.effects_of(two) == before.effects_of(two)
        }),
{
    let one = Action::<A, I>::SetCursor(first);
    let two = Action::<A, I>::SetCursor(second);
    assert(before.after_action(one).after_action(two).seats =~= before.after_action(two).seats);
    assert(before.after_action(one).after_action(two) =~= before.after_action(two));
}

/// A request to redraw a surface moves that surface, and no other, on its way to the next redraw:
/// from nothing to having been requested, and from having received a frame to being ready. It does
/// nothing else.
pub proof fn law_redraw_request_concerns_one_surface<P, I, A>(
    before: SctkStateView<P, I>,
    id: u64,
    other: u64,
)
    ensures
        ({
            let action = Action::<A, I>::RequestRedraw(id);
            let after = before.after_action(action);
            &&& before.accepts(action)
            &&& other != id ==> {
                &&& after.frame_status.contains_key(other) == before.frame_status.contains_key(
                    other,
                )
                &&& after.frame_status.contains_key(other) ==> after.frame_status[other]
                    == before.frame_status[other]
            }
            &&& after.frame_status.contains_key(id)
            &&& !before.frame_status.contains_key(id) ==> after.frame_status[id]
                == FrameStatus::RequestedRedraw
            &&& before.frame_status.contains_key(id) ==> after.frame_status[id] == (
            if before.frame_status[id] == FrameStatus::Received {
                FrameStatus::Ready
            } else {
                before.frame_status[id]
            })
            &&& after == (SctkStateView { frame_status: after.frame_status, ..before })
            &&& before.effects_of(action).len() == 0
        }),
{
}

/// A surface is ready once both a request and a frame have come, in whatever order and however
/// often; before that its status tells which of the two has come.
pub proof fn law_request_and_frame_meet(status: Option<FrameStatus>)
    ensures
        requested(None) == FrameStatus::RequestedRedraw,
        received(None) == FrameStatus::Received,
        received(Some(requested(status))) == FrameStatus::Ready,
        requested(Some(received(status))) == FrameStatus::Ready,
        requested(Some(requested(status))) == requested(status),
        received(Some(received(status))) == received(status),
        requested(status) == FrameStatus::RequestedRedraw <==> status is None || status == Some(
            FrameStatus::RequestedRedraw,
        ),
        received(status) == FrameStatus::Received <==> status is None || status == Some(
            FrameStatus::Received,
        ),
        requested(status) != FrameStatus::Received,
        received(status) != FrameStatus::RequestedRedraw,
{
}

/// A request to redraw one surface does not keep another from being redrawn, nor bring it about:
/// the next turn asks for the next frame of any other surface exactly if it would have done so
/// without the request.
pub proof fn law_redraw_request_spares_other_redraws<P, I, A>(
    before: SctkStateView<P, I>,
    id: u64,
    other: u64,
)
    requires
        other != id,
    ensures
        ({
            let after = before.after_action(Action::<A, I>::RequestRedraw(id));
            let frame = Output::<P>::RequestFrame(other);
            after.turn_outputs().contains(frame) <==> before.turn_outputs().contains(frame)
        }),
{
    let after = before.after_action(Action::<A, I>::RequestRedraw(id));
    law_turn_asks_for_frames(before, other);
    law_turn_asks_for_frames(after, other);
    law_redraw_request_concerns_one_surface::<P, I, A>(before, id, other);
}

/// Requests to redraw two surfaces can be made in either order.
pub proof fn law_redraw_requests_commute<P, I, A>(before: SctkStateView<P, I>, a: u64, b: u64)
    ensures
        ({
            let one = Action::<A, I>::RequestRedraw(a);
            let two = Action::<A, I>::RequestRedraw(b);
            before.after_action(one).after_action(two) == before.after_action(two).after_action(one)
        }),
{
    let one = Action::<A, I>::RequestRedraw(a);
    let two = Action::<A, I>::RequestRedraw(b);
    let (x, y) = (
        before.after_action(one).after_action(two),
        before.after_action(two).after_action(one),
    );
    assert(x.frame_status =~= y.frame_status);
}

/// A surface that the application no longer holds is no longer remembered as destroyed; all others
/// are as before, and nothing else changes.
pub proof fn law_dropped_surface_is_forgotten<P, I, A>(
    before: SctkStateView<P, I>,
    id: u64,
    other: u64,
)
    ensures
        ({
            let action = Action::<A, I>::Dropped(id);
            let after = before.after_action(action);
            &&& before.accepts(action)
            &&& !after.destroyed.contains(id)
            &&& other != id ==> after.destroyed.contains(other) == before.destroyed.contains(other)
            &&& after == (SctkStateView { destroyed: after.destroyed, ..before })
            &&& before.effects_of(action).len() == 0
        }),
{
}

/// What a gravity takes off a location puts the whole surface on the side that it names, and
/// centres the surface where it names none: one that names the left takes off the whole width, one
/// that names the right nothing of it, and any other half of it; and so with top and bottom and the
/// height.
pub proof fn law_gravity_names_the_side(gravity: Gravity)
    ensures
        gravity.shift_x() == (match gravity {
            Gravity::Left | Gravity::TopLeft | Gravity::BottomLeft => Shift::Full,
            Gravity::Right | Gravity::TopRight | Gravity::BottomRight => Shift::Keep,
            Gravity::Center | Gravity::Top | Gravity::Bottom => Shift::Half,
        }),
        gravity.shift_y() == (match gravity {
            Gravity::Top | Gravity::TopLeft | Gravity::TopRight => Shift::Full,
            Gravity::Bottom | Gravity::BottomLeft | Gravity::BottomRight => Shift::Keep,
            Gravity::Center | Gravity::Left | Gravity::Right => Shift::Half,
        }),
{
}

/// The first subsurface with the identifier, and only it, is placed when its size changes: with
/// the new size, and by its own gravity. Then the application is told of the size. The state stays
/// as it is. This can be done wherever that subsurface has a placement.
pub proof fn law_resized_subsurface_is_placed<P, I, A>(
    before: SctkStateView<P, I>,
    id: u64,
    size: PhysicalSize,
    i: int,
)
    requires
        0 <= i < before.subsurfaces.len(),
        before.subsurfaces[i].id == id,
        forall|j: int| 0 <= j < i ==> (#[trigger] before.subsurfaces[j]).id != id,
    ensures
        ({
            let action = Action::<A, I>::SubsurfaceResize(id, size);
            let effects = before.effects_of(action);
            let resized = before.subsurfaces[i];
            &&& before.accepts(action) <==> resized.gravity is Some
            &&& before.can_resize_subsurface(id) <==> resized.gravity is Some
            &&& before.after_action(action) == before
            &&& effects.len() == 2
            &&& effects[1] == Effect::<A, I>::SendEvent(SubsurfaceEventVariant::Resized(id, size))
            &&& effects[0] matches Effect::SetPosition { wl_subsurface, size: new_size, x, y }
            &&& wl_subsurface == resized.instance.wl_subsurface
            &&& new_size == size
            &&& resized.gravity matches Some(gravity) ==> {
                &&& x == (match gravity {
                    Gravity::Left | Gravity::TopLeft | Gravity::BottomLeft => Shift::Full,
                    Gravity::Right | Gravity::TopRight | Gravity::BottomRight => Shift::Keep,
                    Gravity::Center | Gravity::Top | Gravity::Bottom => Shift::Half,
                })
                &&& y == (match gravity {
                    Gravity::Top | Gravity::TopLeft | Gravity::TopRight => Shift::Full,
                    Gravity::Bottom | Gravity::BottomLeft | Gravity::BottomRight => Shift::Keep,
                    Gravity::Center | Gravity::Left | Gravity::Right => Shift::Half,
                })
            }
        }),
{
    lemma_subsurface_at(before, id, i);
}

/// A new size of a subsurface that is not known is passed on to the application, and nothing is
/// placed.
pub proof fn law_resize_of_unknown_subsurface<P, I, A>(
    before: SctkStateView<P, I>,
    id: u64,
    size: PhysicalSize,
)
    requires
        forall|j: int|
            0 <= j < before.subsurfaces.len() ==> (#[trigger] before.subsurfaces[j]).id != id,
    ensures
        ({
            let action = Action::<A, I>::SubsurfaceResize(id, size);
            let effects = before.effects_of(action);
            &&& before.accepts(action)
            &&& before.can_resize_subsurface(id)
            &&& before.after_action(action) == before
            &&& effects.len() == 1
            &&& effects[0] == Effect::<A, I>::SendEvent(SubsurfaceEventVariant::Resized(id, size))
        }),
{
    lemma_no_subsurface(before, id);
}

} // verus!
