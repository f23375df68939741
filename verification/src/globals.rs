//! The globals that are bound to make subsurfaces with.

use crate::event::{SubsurfaceState, SubsurfaceStateView};
use crate::state::Protocols;
use std::collections::HashMap;
use vstd::prelude::*;

verus! {

/// A global of the compositor.
#[derive(Debug, Clone, Copy, PartialEq, Eq, Structural)]
pub enum Global {
    /// `wl_compositor`, which makes surfaces.
    Compositor,
    /// `wl_subcompositor`, which makes subsurfaces.
    Subcompositor,
    /// `wp_viewporter`, which crops and scales surfaces.
    Viewporter,
    /// `wl_shm`, which shares memory.
    Shm,
    /// `zwp_linux_dmabuf_v1`, which shares dma-bufs.
    Dmabuf,
    /// `wp_alpha_modifier_v1`, which makes surfaces translucent.
    AlphaModifier,
}

impl Global {
    /// The lowest version of the global that is bound.
    pub open spec fn lowest(self) -> u32 {
        if self is Dmabuf {
            2
        } else {
            1
        }
    }

    /// The highest version of the global that is bound.
    pub open spec fn highest(self) -> u32 {
        match self {
            Global::Compositor => 6,
            Global::Dmabuf => 4,
            _ => 1,
        }
    }

    /// The versions of the global that are bound, from the lowest to the highest.
    pub fn versions(self) -> (versions: (u32, u32))
        ensures
            versions == (self.lowest(), self.highest()),
    {
        match self {
            Global::Compositor => (1, 6),
            Global::Subcompositor => (1, 1),
            Global::Viewporter => (1, 1),
            Global::Shm => (1, 1),
            Global::Dmabuf => (2, 4),
            Global::AlphaModifier => (1, 1),
        }
    }
}

/// Which globals were bound, apart from those for scaling.
#[derive(Debug, Clone, Copy, PartialEq, Eq, Structural)]
pub struct BoundGlobals {
    /// The compositor that makes the surfaces of the thread.
    pub compositor_state: bool,
    /// Shared memory for the surfaces of the thread.
    pub shm_state: bool,
    /// The shell of toplevels and popups.
    pub xdg_shell_state: bool,
    /// Layer surfaces.
    pub layer_shell: bool,
    /// Activation tokens.
    pub activation_state: bool,
    /// Notifications of overlapping layer surfaces.
    pub overlap_notify: bool,
    /// Information on the toplevels of all clients.
    pub toplevel_info: bool,
    /// Control over the toplevels of all clients.
    pub toplevel_manager: bool,
    /// [`Global::Compositor`].
    pub wl_compositor: bool,
    /// [`Global::Subcompositor`].
    pub wl_subcompositor: bool,
    /// [`Global::Viewporter`].
    pub wp_viewporter: bool,
    /// [`Global::Shm`].
    pub wl_shm: bool,
    /// [`Global::Dmabuf`].
    pub wp_dmabuf: bool,
    /// [`Global::AlphaModifier`].
    pub wp_alpha_modifier: bool,
}

impl BoundGlobals {
    /// Everything without which the thread cannot go on was bound.
    pub open spec fn sufficient(self) -> bool {
        &&& self.compositor_state
        &&& self.shm_state
        &&& self.xdg_shell_state
        &&& self.wl_compositor
        &&& self.wl_shm
    }

    /// Whether everything without which the thread cannot go on was bound.
    pub fn is_sufficient(&self) -> (sufficient: bool)
        ensures
            sufficient == self.sufficient(),
    {
        self.compositor_state && self.shm_state && self.xdg_shell_state && self.wl_compositor
            && self.wl_shm
    }

    /// What subsurfaces are made with. They take a subcompositor and a viewporter, and at first
    /// there are no buffers and no subsurfaces.
    pub open spec fn subsurface_state(self) -> Option<SubsurfaceStateView> {
        if self.wl_subcompositor && self.wp_viewporter {
            Some(
                SubsurfaceStateView {
                    wp_dmabuf: self.wp_dmabuf,
                    wp_alpha_modifier: self.wp_alpha_modifier,
                    buffers: Map::empty(),
                    unmapped_subsurfaces: Seq::empty(),
                    new_iced_subsurfaces: Seq::empty(),
                },
            )
        } else {
            None
        }
    }

    /// What subsurfaces are made with, where they are supported.
    pub fn subsurfaces(&self) -> (state: Option<SubsurfaceState>)
        ensures
            match state {
                Some(s) => self.subsurface_state() == Some(s@),
                None => self.subsurface_state() is None,
            },
    {
        if self.wl_subcompositor && self.wp_viewporter {
            Some(
                SubsurfaceState {
                    wp_dmabuf: self.wp_dmabuf,
                    wp_alpha_modifier: self.wp_alpha_modifier,
                    buffers: HashMap::new(),
                    unmapped_subsurfaces: Vec::new(),
                    new_iced_subsurfaces: Vec::new(),
                },
            )
        } else {
            None
        }
    }

    /// The optional protocols, once these globals were bound beside those for scaling.
    pub open spec fn added_to(self, protocols: Protocols) -> Protocols {
        Protocols {
            layer_shell: self.layer_shell,
            activation_state: self.activation_state,
            overlap_notify: self.overlap_notify,
            toplevel_info: self.toplevel_info,
            toplevel_manager: self.toplevel_manager,
            ..protocols
        }
    }

    /// Notes the optional protocols among these globals.
    pub fn add_to(&self, protocols: &mut Protocols)
        ensures
            *final(protocols) == self.added_to(*old(protocols)),
    {
        protocols.layer_shell = self.layer_shell;
        protocols.activation_state = self.activation_state;
        protocols.overlap_notify = self.overlap_notify;
        protocols.toplevel_info = self.toplevel_info;
        protocols.toplevel_manager = self.toplevel_manager;
    }
}

} // verus!
