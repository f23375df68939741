//! Why the thread can fail to start.

use calloop::Error as CalloopError;
use vstd::prelude::*;
use wayland_client::globals::GlobalError;
use wayland_client::ConnectError;

verus! {

/// Declares `wayland_client::ConnectError`, of whose contents nothing is claimed.
#[verifier::external_type_specification]
#[verifier::external_body]
pub struct ExConnectError(ConnectError);

/// Declares `calloop::Error`, of whose contents nothing is claimed.
#[verifier::external_type_specification]
#[verifier::external_body]
pub struct ExCalloopError(CalloopError);

/// Declares `wayland_client::globals::GlobalError`, of whose contents nothing is claimed.
#[verifier::external_type_specification]
#[verifier::external_body]
pub struct ExGlobalError(GlobalError);

/// Why the thread could not start.
pub enum Error {
    /// There is no connection to the compositor.
    Connect(ConnectError),
    /// The event loop could not be made.
    Calloop(CalloopError),
    /// The globals of the compositor could not be listed.
    Global(GlobalError),
    /// There is no display handle.
    NoDisplayHandle,
    /// The display is not a Wayland display.
    NoWaylandDisplay,
}

} // verus!
