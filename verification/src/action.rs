//! How requests of the application change the state.

use crate::event::{Action, ChannelEvent, Effect, SubsurfaceEventVariant};
use crate::frame::{request_redraw, requested, FrameStatus};
use crate::state::{SctkState, SctkStateView};
use crate::surface::{window_id, PhysicalSize, SctkSeat, SctkSubsurface, SctkWindow};
use crate::turn::{law_redrawn_iff_ready, mentions};
use vstd::prelude::*;

verus! {

broadcast use vstd::std_specs::hash::group_hash_axioms;

/// The application's identifiers of windows.
pub open spec fn window_ids(windows: Seq<SctkWindow>) -> Seq<u64> {
    windows.map_values(|w: SctkWindow| w.id)
}

/// The application's identifiers of subsurfaces.
pub open spec fn subsurface_ids(subsurfaces: Seq<SctkSubsurface>) -> Seq<u64> {
    subsurfaces.map_values(|s: SctkSubsurface| s.id)
}

/// Where in `subsurfaces` those of the window with the number `window` stand, in ascending order.
pub open spec fn children(subsurfaces: Seq<SctkSubsurface>, window: u64) -> Seq<int>
    decreases subsurfaces.len(),
{
    if subsurfaces.len() == 0 {
        Seq::empty()
    } else {
        let earlier = children(subsurfaces.drop_last(), window);
        if subsurfaces.last().instance.parent == window {
            earlier.push(subsurfaces.len() - 1)
        } else {
            earlier
        }
    }
}

/// What is left of `s` when an element is removed at each of `positions`, one after the other: the
/// later removals see the elements behind the earlier ones moved up.
pub open spec fn remove_in_turn<T>(s: Seq<T>, positions: Seq<int>) -> Seq<T>
    decreases positions.len(),
{
    if positions.len() == 0 {
        s
    } else {
        remove_in_turn(s, positions.drop_last()).remove(positions.last())
    }
}

/// What is done for subsurfaces that are gone: for each, its surface is forgotten and the
/// application is told.
pub open spec fn destroy_effects<A, I>(gone: Seq<SctkSubsurface>) -> Seq<Effect<A, I>>
    decreases gone.len(),
{
    if gone.len() == 0 {
        Seq::empty()
    } else {
        destroy_effects::<A, I>(gone.drop_last()) + seq![
            Effect::RemoveIcedSubsurface(gone.last().instance.wl_surface),
            Effect::SendEvent(SubsurfaceEventVariant::Destroyed(gone.last().instance)),
        ]
    }
}

impl<P, I> SctkStateView<P, I> {
    /// Where the first tracked window with the identifier `id` stands.
    pub open spec fn window_at(self, id: u64) -> Option<int> {
        window_ids(self.windows).index_of_first(id)
    }

    /// Where the first subsurface with the identifier `id` stands.
    pub open spec fn subsurface_at(self, id: u64) -> Option<int> {
        subsurface_ids(self.subsurfaces).index_of_first(id)
    }

    /// Where the subsurfaces of the tracked window `id` stand.
    pub open spec fn children_of(self, id: u64) -> Seq<int> {
        match self.window_at(id) {
            Some(i) => children(self.subsurfaces, self.windows[i].window),
            None => Seq::empty(),
        }
    }

    /// Every position at which the removal of the window `id` removes a subsurface is still in
    /// range when its turn comes.
    pub open spec fn can_remove_window(self, id: u64) -> bool {
        let positions = self.children_of(id);
        positions.len() > 0 ==> positions.last() + positions.len() <= self.subsurfaces.len()
    }

    /// The subsurface with the identifier `id`, if there is one, extends in a direction in which it
    /// can be placed.
    pub open spec fn can_resize_subsurface(self, id: u64) -> bool {
        self.subsurface_at(id) matches Some(i) ==> self.subsurfaces[i].gravity is Some
    }

    /// The request can be met.
    pub open spec fn accepts<A>(self, action: Action<A, I>) -> bool {
        match action {
            Action::RemoveWindow(id) => self.can_remove_window(id),
            Action::SubsurfaceResize(id, _) => self.can_resize_subsurface(id),
            _ => true,
        }
    }

    /// The subsurfaces that the removal of the window `id` removes, in order. Each removal moves
    /// up what stands behind it, so that the `j`-th one takes the subsurface that stood `j` places
    /// behind the `j`-th child of the window.
    pub open spec fn removed_with(self, id: u64) -> Seq<SctkSubsurface> {
        let positions = self.children_of(id);
        Seq::new(positions.len(), |j: int| self.subsurfaces[positions[j] + j])
    }

    /// The state after a request.
    pub open spec fn after_action<A>(self, action: Action<A, I>) -> Self {
        match action {
            Action::Action(_) => self,
            Action::TrackWindow(window, id) => SctkStateView {
                windows: self.windows.push(SctkWindow { window, id }),
                ..self
            },
            Action::RemoveWindow(id) => match self.window_at(id) {
                Some(i) => SctkStateView {
                    windows: self.windows.remove(i),
                    subsurfaces: remove_in_turn(self.subsurfaces, self.children_of(id)),
                    ..self
                },
                None => self,
            },
            Action::SetCursor(icon) => if self.seats.len() > 0 {
                SctkStateView {
                    seats: self.seats.update(0, SctkSeat { icon: Some(icon) }),
                    ..self
                }
            } else {
                self
            },
            Action::RequestRedraw(id) => SctkStateView {
                frame_status: self.frame_status.insert(id, requested(self.frame_status.get(id))),
                ..self
            },
            Action::Dropped(id) => SctkStateView { destroyed: self.destroyed.remove(id), ..self },
            Action::SubsurfaceResize(_, _) => self,
        }
    }

    /// What is done outside the state on account of a request, in order.
    pub open spec fn effects_of<A>(self, action: Action<A, I>) -> Seq<Effect<A, I>> {
        match action {
            Action::Action(a) => seq![Effect::HandleAction(a)],
            Action::TrackWindow(_, _) => Seq::empty(),
            Action::RemoveWindow(id) => destroy_effects(self.removed_with(id)),
            Action::SetCursor(icon) => if self.seats.len() > 0 {
                seq![Effect::SetCursor(icon)]
            } else {
                Seq::empty()
            },
            Action::RequestRedraw(_) => Seq::empty(),
            Action::Dropped(_) => Seq::empty(),
            Action::SubsurfaceResize(id, size) => {
                let resized = seq![
                    Effect::SendEvent(SubsurfaceEventVariant::Resized(id, size)),
                ];
                match self.subsurface_at(id) {
                    Some(i) => seq![
                        Effect::SetPosition {
                            wl_subsurface: self.subsurfaces[i].instance.wl_subsurface,
                            size,
                            x: self.subsurfaces[i].gravity->0.shift_x(),
                            y: self.subsurfaces[i].gravity->0.shift_y(),
                        },
                    ] + resized,
                    None => resized,
                }
            },
        }
    }
}

/// The children of a window ascend, lie in range, and are exactly the subsurfaces whose parent it
/// is.
pub(crate) proof fn lemma_children(subsurfaces: Seq<SctkSubsurface>, window: u64)
    ensures
        forall|i: int, j: int|
            0 <= i < j < children(subsurfaces, window).len() ==> (#[trigger] children(
                subsurfaces,
                window,
            )[i]) < (#[trigger] children(subsurfaces, window)[j]),
        forall|i: int|
            0 <= i < children(subsurfaces, window).len() ==> 0 <= #[trigger] children(
                subsurfaces,
                window,
            )[i] < subsurfaces.len() && subsurfaces[children(subsurfaces, window)[i]].instance.parent
                == window,
        forall|k: int|
            0 <= k < subsurfaces.len() && (#[trigger] subsurfaces[k]).instance.parent == window
                ==> children(subsurfaces, window).contains(k),
    decreases subsurfaces.len(),
{
    if subsurfaces.len() > 0 {
        let rest = subsurfaces.drop_last();
        lemma_children(rest, window);
        let earlier = children(rest, window);
        let all = children(subsurfaces, window);
        assert forall|k: int|
            0 <= k < subsurfaces.len() && (#[trigger] subsurfaces[k]).instance.parent
                == window implies all.contains(k) by {
            if k < rest.len() {
                assert(rest[k] == subsurfaces[k]);
                let i = choose|i: int| 0 <= i < earlier.len() && earlier[i] == k;
                assert(all[i] == k);
            } else {
                assert(all[all.len() - 1] == k);
            }
        }
    }
}

/// Of ascending positions, the `j`-th removal takes the element that stood `j` places behind the
/// `j`-th position, and what stood behind that has moved up by `j` places.
pub(crate) proof fn lemma_remove_in_turn<T>(s: Seq<T>, positions: Seq<int>)
    requires
        forall|i: int, j: int|
            0 <= i < j < positions.len() ==> (#[trigger] positions[i]) < (#[trigger] positions[j]),
        positions.len() > 0 ==> positions[0] >= 0 && positions.last() + positions.len() <= s.len(),
    ensures
        remove_in_turn(s, positions).len() == s.len() - positions.len(),
        forall|k: int|
            0 <= k < s.len() - positions.len() && (positions.len() > 0 ==> k >= positions.last())
                ==> #[trigger] remove_in_turn(s, positions)[k] == s[k + positions.len()],
    decreases positions.len(),
{
    if positions.len() > 0 {
        let earlier = positions.drop_last();
        assert(forall|i: int| 0 <= i < earlier.len() ==> earlier[i] == positions[i]);
        if earlier.len() > 0 {
            assert(earlier.last() < positions.last());
            assert(positions[0] <= positions.last());
        }
        lemma_remove_in_turn(s, earlier);
    }
}

impl<P, I> SctkState<P, I> {
    /// Where the first tracked window with the identifier `id` stands.
    fn find_window(&self, id: u64) -> (position: Option<usize>)
        ensures
            match position {
                Some(i) => self@.window_at(id) == Some(i as int) && i < self@.windows.len(),
                None => self@.window_at(id) is None,
            },
    {
        let ghost ids = window_ids(self@.windows);
        for i in 0..self.windows.len()
            invariant
                ids == window_ids(self.windows@),
                forall|j: int| 0 <= j < i ==> ids[j] != id,
        {
            if self.windows[i].id == id {
                assert(ids[i as int] == id);
                proof {
                    ids.index_of_first_ensures(id);
                }
                return Some(i);
            }
            assert(ids[i as int] != id);
        }
        proof {
            ids.index_of_first_ensures(id);
        }
        None
    }

    /// Where the first subsurface with the identifier `id` stands.
    fn find_subsurface(&self, id: u64) -> (position: Option<usize>)
        ensures
            match position {
                Some(i) => self@.subsurface_at(id) == Some(i as int) && i < self@.subsurfaces.len(),
                None => self@.subsurface_at(id) is None,
            },
    {
        let ghost ids = subsurface_ids(self@.subsurfaces);
        for i in 0..self.subsurfaces.len()
            invariant
                ids == subsurface_ids(self.subsurfaces@),
                forall|j: int| 0 <= j < i ==> ids[j] != id,
        {
            if self.subsurfaces[i].id == id {
                assert(ids[i as int] == id);
                proof {
                    ids.index_of_first_ensures(id);
                }
                return Some(i);
            }
            assert(ids[i as int] != id);
        }
        proof {
            ids.index_of_first_ensures(id);
        }
        None
    }

    /// Where the subsurfaces of the window with the number `window` stand.
    fn find_children(&self, window: u64) -> (positions: Vec<usize>)
        ensures
            positions@.map_values(|i: usize| i as int) == children(self@.subsurfaces, window),
    {
        let mut positions: Vec<usize> = Vec::new();
        for i in 0..self.subsurfaces.len()
            invariant
                positions@.map_values(|i: usize| i as int) == children(
                    self.subsurfaces@.take(i as int),
                    window,
                ),
        {
            assert(self.subsurfaces@.take(i + 1).drop_last() =~= self.subsurfaces@.take(i as int));
            let ghost earlier = positions@;
            if window_id(self.subsurfaces[i].instance.parent) == window {
                positions.push(i);
                assert(positions@.map_values(|i: usize| i as int) =~= earlier.map_values(
                    |i: usize| i as int,
                ).push(i as int));
            }
        }
        assert(self.subsurfaces@.take(self.subsurfaces@.len() as int) =~= self.subsurfaces@);
        positions
    }

    /// Whether the window `id` can be removed: the positions at which subsurfaces are removed with
    /// it stay in range.
    pub fn can_remove_window(&self, id: u64) -> (can: bool)
        ensures
            can == self@.can_remove_window(id),
    {
        match self.find_window(id) {
            Some(i) => {
                let positions = self.find_children(self.windows[i].window);
                let ghost expected = children(self@.subsurfaces, self@.windows[i as int].window);
                assert(positions@.map_values(|i: usize| i as int) == expected);
                assert(positions@.len() == expected.len());
                proof {
                    lemma_children(self@.subsurfaces, self@.windows[i as int].window);
                }
                let count: usize = positions.len();
                if count == 0 {
                    true
                } else {
                    assert(expected.last() == positions@.last());
                    let last: usize = positions[count - 1];
                    count <= self.subsurfaces.len() - last
                }
            },
            None => true,
        }
    }

    /// Whether a new size of the subsurface `id` can be taken: where there is such a subsurface, it
    /// can be placed.
    pub fn can_resize_subsurface(&self, id: u64) -> (can: bool)
        ensures
            can == self@.can_resize_subsurface(id),
    {
        match self.find_subsurface(id) {
            Some(i) => self.subsurfaces[i].gravity.is_some(),
            None => true,
        }
    }

    /// Stops tracking the first window with the identifier `id`, and removes subsurfaces with it.
    fn remove_window<A>(&mut self, id: u64) -> (effects: Vec<Effect<A, I>>)
        requires
            old(self)@.can_remove_window(id),
        ensures
            final(self)@ == old(self)@.after_action(Action::<A, I>::RemoveWindow(id)),
            effects@ == old(self)@.effects_of(Action::<A, I>::RemoveWindow(id)),
    {
        let ghost before = self@;
        let mut effects: Vec<Effect<A, I>> = Vec::new();
        if let Some(i) = self.find_window(id) {
            let w = self.windows.remove(i);
            let positions = self.find_children(w.window);
            let ghost expected = children(before.subsurfaces, w.window);
            assert(positions@.map_values(|i: usize| i as int) == expected);
            assert(expected == before.children_of(id));
            proof {
                lemma_children(before.subsurfaces, w.window);
            }
            assert(expected.take(0) =~= Seq::empty());
            assert(before.removed_with(id).take(0) =~= Seq::empty());
            for j in 0..positions.len()
                invariant
                    before.can_remove_window(id),
                    expected == before.children_of(id),
                    positions@.map_values(|i: usize| i as int) == expected,
                    expected == children(before.subsurfaces, w.window),
                    forall|a: int, b: int|
                        0 <= a < b < expected.len() ==> (#[trigger] expected[a])
                            < (#[trigger] expected[b]),
                    forall|a: int| 0 <= a < expected.len() ==> 0 <= #[trigger] expected[a],
                    self@ == (SctkStateView {
                        windows: before.windows.remove(i as int),
                        subsurfaces: remove_in_turn(
                            before.subsurfaces,
                            expected.take(j as int),
                        ),
                        ..before
                    }),
                    effects@ == destroy_effects::<A, I>(before.removed_with(id).take(j as int)),
            {
                let ghost gone = before.removed_with(id);
                proof {
                    let earlier = expected.take(j as int);
                    assert(positions@.map_values(|i: usize| i as int)[j as int] == positions@[j as int]);
                    assert(expected.last() >= expected[j as int]);
                    if j > 0 {
                        assert(earlier.last() == expected[j - 1]);
                    }
                    lemma_remove_in_turn(before.subsurfaces, earlier);
                    assert(expected.take(j + 1).drop_last() =~= earlier);
                    assert(gone.take(j + 1).drop_last() =~= gone.take(j as int));
                    assert(gone.take(j + 1).last() == gone[j as int]);
                }
                let s = self.subsurfaces.remove(positions[j]);
                assert(s == gone[j as int]);
                effects.push(Effect::RemoveIcedSubsurface(s.instance.wl_surface));
                effects.push(Effect::SendEvent(SubsurfaceEventVariant::Destroyed(s.instance)));
            }
            assert(expected.take(expected.len() as int) =~= expected);
            assert(before.removed_with(id).take(expected.len() as int) =~= before.removed_with(id));
        }
        effects
    }

    /// Places the first subsurface with the identifier `id` for its new size, and tells the
    /// application of it.
    fn resize_subsurface<A>(&self, id: u64, size: PhysicalSize) -> (effects: Vec<Effect<A, I>>)
        requires
            self@.can_resize_subsurface(id),
        ensures
            effects@ == self@.effects_of(Action::<A, I>::SubsurfaceResize(id, size)),
    {
        let mut effects: Vec<Effect<A, I>> = Vec::new();
        if let Some(i) = self.find_subsurface(id) {
            let subsurface = self.subsurfaces[i];
            let (x, y) = subsurface.gravity.unwrap().shift();
            effects.push(
                Effect::SetPosition {
                    wl_subsurface: subsurface.instance.wl_subsurface,
                    size,
                    x,
                    y,
                },
            );
        }
        effects.push(Effect::SendEvent(SubsurfaceEventVariant::Resized(id, size)));
        effects
    }
}

impl<P, I: Copy> SctkState<P, I> {
    /// Whether a request can be met.
    pub fn accepts<A>(&self, action: &Action<A, I>) -> (can: bool)
        ensures
            can == self@.accepts(*action),
    {
        match action {
            Action::RemoveWindow(id) => self.can_remove_window(*id),
            Action::SubsurfaceResize(id, _) => self.can_resize_subsurface(*id),
            _ => true,
        }
    }

    /// Takes a request of the application that can be met. Returns what is to be done outside the
    /// state, in order.
    pub fn handle_message<A>(&mut self, action: Action<A, I>) -> (effects: Vec<Effect<A, I>>)
        requires
            old(self)@.accepts(action),
        ensures
            final(self)@ == old(self)@.after_action(action),
            effects@ == old(self)@.effects_of(action),
    {
        let mut effects: Vec<Effect<A, I>> = Vec::new();
        match action {
            Action::Action(a) => {
                effects.push(Effect::HandleAction(a));
            },
            Action::TrackWindow(window, id) => {
                self.windows.push(SctkWindow { window, id });
            },
            Action::RemoveWindow(id) => {
                return self.remove_window(id);
            },
            Action::SetCursor(icon) => {
                if self.seats.len() > 0 {
                    self.seats[0].icon = Some(icon);
                    effects.push(Effect::SetCursor(icon));
                }
            },
            Action::RequestRedraw(id) => {
                request_redraw(&mut self.frame_status, id);
            },
            Action::Dropped(id) => {
                self.destroyed.remove(&id);
            },
            Action::SubsurfaceResize(id, size) => {
                return self.resize_subsurface(id, size);
            },
        }
        effects
    }

    /// Takes what the channel of requests delivers. Its end changes nothing: the loop goes on.
    pub fn handle_channel_event<A>(&mut self, event: ChannelEvent<A, I>) -> (effects: Vec<
        Effect<A, I>,
    >)
        requires
            event matches ChannelEvent::Msg(action) ==> old(self)@.accepts(action),
        ensures
            match event {
                ChannelEvent::Msg(action) => {
                    &&& final(self)@ == old(self)@.after_action(action)
                    &&& effects@ == old(self)@.effects_of(action)
                },
                ChannelEvent::Closed => {
                    &&& final(self)@ == old(self)@
                    &&& effects@ == Seq::<Effect<A, I>>::empty()
                },
            },
    {
        match event {
            ChannelEvent::Msg(action) => self.handle_message(action),
            ChannelEvent::Closed => Vec::new(),
        }
    }
}

proof fn lemma_removed_multiset<T>(s: Seq<T>, positions: Seq<int>)
    requires
        forall|i: int, j: int|
            0 <= i < j < positions.len() ==> (#[trigger] positions[i]) < (#[trigger] positions[j]),
        positions.len() > 0 ==> positions[0] >= 0 && positions.last() + positions.len() <= s.len(),
    ensures
        remove_in_turn(s, positions).to_multiset().add(
            Seq::new(positions.len(), |j: int| s[positions[j] + j]).to_multiset(),
        ) == s.to_multiset(),
    decreases positions.len(),
{
    broadcast use vstd::seq_lib::group_to_multiset_ensures;

    let gone = Seq::new(positions.len(), |j: int| s[positions[j] + j]);
    if positions.len() == 0 {
        assert(gone =~= Seq::empty());
        assert(gone.to_multiset() =~= vstd::multiset::Multiset::empty());
        assert(s.to_multiset().add(gone.to_multiset()) =~= s.to_multiset());
    } else {
        let earlier = positions.drop_last();
        let n = earlier.len() as int;
        assert(forall|i: int| 0 <= i < n ==> earlier[i] == positions[i]);
        if n > 0 {
            assert(earlier.last() < positions.last());
            assert(positions[0] <= positions.last());
        }
        lemma_removed_multiset(s, earlier);
        lemma_remove_in_turn(s, earlier);
        let rest = remove_in_turn(s, earlier);
        let before = Seq::new(earlier.len(), |j: int| s[earlier[j] + j]);
        let x = s[positions.last() + n];
        assert(rest[positions.last()] == x);
        assert(gone =~= before.push(x));
        assert(rest.contains(x));
        assert(rest.to_multiset().remove(x).add(before.to_multiset().insert(x))
            =~= rest.to_multiset().add(before.to_multiset()));
    }
}

/// Removing a window loses no subsurface: those that stay and those that the application is told
/// of as destroyed make up those that were there, each as often as before. As many go as the
/// window has children.
pub proof fn law_removal_accounts_for_every_subsurface<P, I, A>(
    before: SctkStateView<P, I>,
    id: u64,
)
    requires
        before.can_remove_window(id),
    ensures
        ({
            let after = before.after_action(Action::<A, I>::RemoveWindow(id));
            &&& after.subsurfaces.to_multiset().add(before.removed_with(id).to_multiset())
                == before.subsurfaces.to_multiset()
            &&& before.removed_with(id).len() == before.children_of(id).len()
        }),
{
    let positions = before.children_of(id);
    if let Some(i) = before.window_at(id) {
        lemma_children(before.subsurfaces, before.windows[i].window);
    }
    lemma_removed_multiset(before.subsurfaces, positions);
}

proof fn lemma_single_child(subsurfaces: Seq<SctkSubsurface>, window: u64)
    requires
        children(subsurfaces, window).len() <= 1,
    ensures
        ({
            let positions = children(subsurfaces, window);
            let stay = subsurfaces.filter(|s: SctkSubsurface| s.instance.parent != window);
            let go = subsurfaces.filter(|s: SctkSubsurface| s.instance.parent == window);
            if positions.len() == 0 {
                stay == subsurfaces && go == Seq::<SctkSubsurface>::empty()
            } else {
                &&& 0 <= positions[0] < subsurfaces.len()
                &&& stay == subsurfaces.remove(positions[0])
                &&& go == seq![subsurfaces[positions[0]]]
            }
        }),
    decreases subsurfaces.len(),
{
    reveal(Seq::filter);
    if subsurfaces.len() > 0 {
        let earlier = subsurfaces.drop_last();
        lemma_single_child(earlier, window);
        let positions = children(subsurfaces, window);
        assert(earlier.push(subsurfaces.last()) =~= subsurfaces);
        if positions.len() == 1 {
            if subsurfaces.last().instance.parent == window {
                assert(subsurfaces.remove(subsurfaces.len() - 1) =~= earlier);
                assert(seq![subsurfaces.last()] =~= Seq::<SctkSubsurface>::empty().push(
                    subsurfaces.last(),
                ));
            } else {
                assert(subsurfaces.remove(positions[0]) =~= earlier.remove(positions[0]).push(
                    subsurfaces.last(),
                ));
            }
        }
    } else {
        assert(subsurfaces =~= Seq::<SctkSubsurface>::empty());
    }
}

/// Removing a window that has at most one subsurface removes and reports exactly the subsurfaces
/// of that window.
pub proof fn law_removal_takes_an_only_child<P, I, A>(before: SctkStateView<P, I>, id: u64)
    requires
        before.window_at(id) is Some,
        before.children_of(id).len() <= 1,
    ensures
        before.can_remove_window(id),
        ({
            let window = before.windows[before.window_at(id)->0].window;
            let action = Action::<A, I>::RemoveWindow(id);
            &&& before.after_action(action).subsurfaces == before.subsurfaces.filter(
                |s: SctkSubsurface| s.instance.parent != window,
            )
            &&& before.effects_of(action) == destroy_effects::<A, I>(
                before.subsurfaces.filter(|s: SctkSubsurface| s.instance.parent == window),
            )
        }),
{
    let window = before.windows[before.window_at(id)->0].window;
    let positions = before.children_of(id);
    lemma_single_child(before.subsurfaces, window);
    let go = before.subsurfaces.filter(|s: SctkSubsurface| s.instance.parent == window);
    assert(before.removed_with(id) =~= go);
    if positions.len() == 1 {
        assert(positions.drop_last() =~= Seq::empty());
        assert(remove_in_turn(before.subsurfaces, positions.drop_last()) == before.subsurfaces);
    }
}

/// A request to remove a window that is not tracked changes nothing and does nothing.
pub proof fn law_untracked_window_is_not_removed<P, I, A>(before: SctkStateView<P, I>, id: u64)
    requires
        forall|i: int| 0 <= i < before.windows.len() ==> (#[trigger] before.windows[i]).id != id,
    ensures
        before.can_remove_window(id),
        before.accepts(Action::<A, I>::RemoveWindow(id)),
        before.after_action(Action::<A, I>::RemoveWindow(id)) == before,
        before.effects_of(Action::<A, I>::RemoveWindow(id)) == Seq::<Effect<A, I>>::empty(),
{
    let ids = window_ids(before.windows);
    ids.index_of_first_ensures(id);
    assert(!ids.contains(id));
}

/// Removing a window undoes tracking it, where its identifier was not in use and it has no
/// subsurfaces.
pub proof fn law_removing_undoes_tracking<P, I, A>(
    before: SctkStateView<P, I>,
    window: u64,
    id: u64,
)
    requires
        forall|i: int|
            0 <= i < before.windows.len() ==> (#[trigger] before.windows[i]).id != id,
        forall|i: int|
            0 <= i < before.subsurfaces.len() ==> (
            #[trigger] before.subsurfaces[i]).instance.parent != window,
    ensures
        ({
            let with_window = before.after_action(Action::<A, I>::TrackWindow(window, id));
            let removal = Action::<A, I>::RemoveWindow(id);
            &&& with_window.can_remove_window(id)
            &&& with_window.after_action(removal) == before
            &&& with_window.effects_of(removal) == Seq::<Effect<A, I>>::empty()
        }),
{
    let with_window = before.after_action(Action::<A, I>::TrackWindow(window, id));
    let ids = window_ids(with_window.windows);
    let last = before.windows.len() as int;
    ids.index_of_first_ensures(id);
    assert(ids[last] == id);
    assert(forall|i: int| 0 <= i < last ==> ids[i] == before.windows[i].id);
    assert(with_window.window_at(id) == Some(last));
    assert(with_window.windows.remove(last) =~= before.windows);
    lemma_children(before.subsurfaces, window);
    let positions = children(before.subsurfaces, window);
    if positions.len() > 0 {
        assert(before.subsurfaces[positions[0]].instance.parent == window);
    }
    assert(with_window.after_action(Action::<A, I>::RemoveWindow(id)) =~= before);
}

/// After a request to redraw a surface, the next turn redraws it exactly when it is listed, known
/// to the application, and has received a frame since it was last redrawn.
pub proof fn law_requested_redraw_comes_with_the_frame<P, I, A>(
    before: SctkStateView<P, I>,
    id: u64,
)
    ensures
        mentions(before.after_action(Action::<A, I>::RequestRedraw(id)).redrawn(), id) <==> {
            &&& mentions(before.listed(), id)
            &&& before.id_map.contains_key(id)
            &&& before.frame_status.get(id) == Some(FrameStatus::Received)
                || before.frame_status.get(id) == Some(FrameStatus::Ready)
        },
{
    let after = before.after_action(Action::<A, I>::RequestRedraw(id));
    assert(after.listed() == before.listed());
    law_redrawn_iff_ready(after.listed(), after.frame_status, after.id_map, id);
}

/// A second request to redraw a surface adds nothing to the first.
pub proof fn law_redraw_requests_do_not_pile_up<P, I, A>(before: SctkStateView<P, I>, id: u64)
    ensures
        ({
            let request = Action::<A, I>::RequestRedraw(id);
            before.after_action(request).after_action(request) == before.after_action(request)
        }),
{
    let request = Action::<A, I>::RequestRedraw(id);
    let once = before.after_action(request);
    assert(once.after_action(request) =~= once);
}

/// No request touches the collected events, the listed surfaces, the surfaces that the application
/// knows, or what was bound.
pub proof fn law_requests_leave_the_rest_alone<P, I, A>(
    before: SctkStateView<P, I>,
    action: Action<A, I>,
)
    ensures
        ({
            let after = before.after_action(action);
            &&& after.sctk_events == before.sctk_events
            &&& after.listed() == before.listed()
            &&& after.id_map == before.id_map
            &&& after.protocols == before.protocols
            &&& after.subsurface_state == before.subsurface_state
        }),
{
}

} // verus!
