# sctk_event_loop

The verified core of an event loop that lets a winit application use Wayland surfaces that winit
has no notion of: layer surfaces, popups, lock surfaces and subsurfaces.

The loop runs on a thread beside the application. `src/` holds its state and the decisions that it
takes, with contracts that Verus proves:

- `event_loop.rs`: the thread as a machine that turns each report into the next command, from
  reading the display handle to the end of the loop.
- `turn.rs`: what follows each dispatch. Surfaces that are ready are redrawn, collected events are
  forwarded, and the application is woken up if it was sent anything.
- `action.rs`: how requests of the application change the state.
- `frame.rs`: when a surface may be redrawn.
- `surface.rs`, `event.rs`, `globals.rs`, `state.rs`, `error.rs`: the data.

Protocol objects appear in the state as integers. `app/` holds the thread itself, which makes the
connections, performs the commands and works out the floating-point positions of subsurfaces, over
handlers of the Wayland protocols that implement its `Backend` trait. `tests/` runs the library on
concrete values.
