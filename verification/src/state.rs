//! The state of the thread.

use crate::event::{SctkEvent, SubsurfaceState, SubsurfaceStateView};
use crate::frame::FrameStatus;
use crate::surface::{SctkSeat, SctkSubsurface, SctkWindow, Surface};
use std::collections::{HashMap, HashSet};
use vstd::prelude::*;

verus! {

/// The optional protocols of the compositor, and whether each is available.
#[derive(Debug, Clone, Copy, PartialEq, Eq, Structural)]
pub struct Protocols {
    /// Fractional scaling.
    pub fractional_scaling_manager: bool,
    /// The viewporter that goes with fractional scaling.
    pub viewporter_state: bool,
    /// Layer surfaces.
    pub layer_shell: bool,
    /// Activation tokens.
    pub activation_state: bool,
    /// Notifications of overlapping layer surfaces.
    pub overlap_notify: bool,
    /// Information on the toplevels of all clients.
    pub toplevel_info: bool,
    /// Control over the toplevels of all clients.
    pub toplevel_manager: bool,
}

/// What the thread keeps between events.
pub struct SctkState<P, I> {
    /// The optional protocols that were bound.
    pub protocols: Protocols,
    /// The seats, in the order in which they appeared.
    pub seats: Vec<SctkSeat<I>>,
    /// The tracked windows.
    pub windows: Vec<SctkWindow>,
    /// The layer surfaces.
    pub layer_surfaces: Vec<Surface>,
    /// The popups.
    pub popups: Vec<Surface>,
    /// The lock surfaces.
    pub lock_surfaces: Vec<Surface>,
    /// The subsurfaces.
    pub subsurfaces: Vec<SctkSubsurface>,
    /// Events that wait to be forwarded, oldest first.
    pub sctk_events: Vec<SctkEvent<P>>,
    /// How far each surface is on its way to the next redraw.
    pub frame_status: HashMap<u64, FrameStatus>,
    /// The application's identifiers of the surfaces that it knows.
    pub id_map: HashMap<u64, u64>,
    /// The application's identifiers of destroyed surfaces that it still holds.
    pub destroyed: HashSet<u64>,
    /// How many activation tokens were asked for.
    pub activation_token_ctr: u32,
    /// What subsurfaces are made with, where they are supported.
    pub subsurface_state: Option<SubsurfaceState>,
}

/// The contents of an [`SctkState`].
#[verifier::ext_equal]
pub struct SctkStateView<P, I> {
    pub protocols: Protocols,
    pub seats: Seq<SctkSeat<I>>,
    pub windows: Seq<SctkWindow>,
    pub layer_surfaces: Seq<Surface>,
    pub popups: Seq<Surface>,
    pub lock_surfaces: Seq<Surface>,
    pub subsurfaces: Seq<SctkSubsurface>,
    pub sctk_events: Seq<SctkEvent<P>>,
    pub frame_status: Map<u64, FrameStatus>,
    pub id_map: Map<u64, u64>,
    pub destroyed: Set<u64>,
    pub activation_token_ctr: u32,
    pub subsurface_state: Option<SubsurfaceStateView>,
}

impl<P, I> View for SctkState<P, I> {
    type V = SctkStateView<P, I>;

    open spec fn view(&self) -> SctkStateView<P, I> {
        SctkStateView {
            protocols: self.protocols,
            seats: self.seats@,
            windows: self.windows@,
            layer_surfaces: self.layer_surfaces@,
            popups: self.popups@,
            lock_surfaces: self.lock_surfaces@,
            subsurfaces: self.subsurfaces@,
            sctk_events: self.sctk_events@,
            frame_status: self.frame_status@,
            id_map: self.id_map@,
            destroyed: self.destroyed@,
            activation_token_ctr: self.activation_token_ctr,
            subsurface_state: match self.subsurface_state {
                Some(state) => Some(state@),
                None => None,
            },
        }
    }
}

impl<P, I> SctkStateView<P, I> {
    /// Nothing is known yet.
    pub open spec fn initial() -> Self {
        SctkStateView {
            protocols: Protocols {
                fractional_scaling_manager: false,
                viewporter_state: false,
                layer_shell: false,
                activation_state: false,
                overlap_notify: false,
                toplevel_info: false,
                toplevel_manager: false,
            },
            seats: Seq::empty(),
            windows: Seq::empty(),
            layer_surfaces: Seq::empty(),
            popups: Seq::empty(),
            lock_surfaces: Seq::empty(),
            subsurfaces: Seq::empty(),
            sctk_events: Seq::empty(),
            frame_status: Map::empty(),
            id_map: Map::empty(),
            destroyed: Set::empty(),
            activation_token_ctr: 0,
            subsurface_state: None,
        }
    }
}

impl<P, I> SctkState<P, I> {
    /// The state before anything was bound and before anything happened.
    pub fn new() -> (state: Self)
        ensures
            state@ == SctkStateView::<P, I>::initial(),
    {
        SctkState {
            protocols: Protocols {
                fractional_scaling_manager: false,
                viewporter_state: false,
                layer_shell: false,
                activation_state: false,
                overlap_notify: false,
                toplevel_info: false,
                toplevel_manager: false,
            },
            seats: Vec::new(),
            windows: Vec::new(),
            layer_surfaces: Vec::new(),
            popups: Vec::new(),
            lock_surfaces: Vec::new(),
            subsurfaces: Vec::new(),
            sctk_events: Vec::new(),
            frame_status: HashMap::new(),
            id_map: HashMap::new(),
            destroyed: HashSet::new(),
            activation_token_ctr: 0,
            subsurface_state: None,
        }
    }
}

} // verus!
