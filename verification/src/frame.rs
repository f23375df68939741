//! When a surface may be redrawn.
//!
//! A surface is redrawn once two things have come together: the application asked for a redraw,
//! and the compositor sent a frame callback. The frame table remembers which of the two has
//! happened since the surface was last redrawn.

use std::collections::HashMap;
use vstd::prelude::*;

verus! {

broadcast use vstd::std_specs::hash::group_hash_axioms;

/// How far a surface is on its way to the next redraw.
#[derive(Debug, Clone, Copy, PartialEq, Eq, Structural)]
pub enum FrameStatus {
    /// A frame callback arrived, but no redraw was requested.
    Received,
    /// A redraw was requested, but no frame callback arrived.
    RequestedRedraw,
    /// Both happened: the surface can be redrawn.
    Ready,
}

/// The status of a surface after a redraw request, from the one before it.
pub open spec fn requested(status: Option<FrameStatus>) -> FrameStatus {
    match status {
        None => FrameStatus::RequestedRedraw,
        Some(FrameStatus::Received) => FrameStatus::Ready,
        Some(other) => other,
    }
}

/// The status of a surface after a frame callback, from the one before it.
pub open spec fn received(status: Option<FrameStatus>) -> FrameStatus {
    match status {
        None => FrameStatus::Received,
        Some(FrameStatus::RequestedRedraw) => FrameStatus::Ready,
        Some(other) => other,
    }
}

/// Records that the application wants the surface `id` redrawn.
pub fn request_redraw(frame_status: &mut HashMap<u64, FrameStatus>, id: u64)
    ensures
        final(frame_status)@ == old(frame_status)@.insert(id, requested(old(frame_status)@.get(id))),
{
    let e = frame_status.entry(id).or_insert(FrameStatus::RequestedRedraw);
    if *e == FrameStatus::Received {
        *e = FrameStatus::Ready;
    }
}

/// Records that a frame callback arrived for the surface `id`.
pub fn receive_frame(frame_status: &mut HashMap<u64, FrameStatus>, id: u64)
    ensures
        final(frame_status)@ == old(frame_status)@.insert(id, received(old(frame_status)@.get(id))),
{
    let e = frame_status.entry(id).or_insert(FrameStatus::Received);
    if *e == FrameStatus::RequestedRedraw {
        *e = FrameStatus::Ready;
    }
}

/// What can happen to a surface between two redraws.
pub enum FrameInput {
    /// The application requested a redraw.
    Request,
    /// A frame callback arrived.
    Callback,
}

/// The status of a surface to which `inputs` happened, in that order, since its last redraw.
pub open spec fn status_after(inputs: Seq<FrameInput>) -> Option<FrameStatus>
    decreases inputs.len(),
{
    if inputs.len() == 0 {
        None
    } else {
        let before = status_after(inputs.drop_last());
        match inputs.last() {
            FrameInput::Request => Some(requested(before)),
            FrameInput::Callback => Some(received(before)),
        }
    }
}

/// The status of a surface is decided by which kinds of input it has seen since its last redraw,
/// whatever their order and number: it is ready exactly when it has seen a request and a callback.
pub proof fn law_ready_needs_request_and_callback(inputs: Seq<FrameInput>)
    ensures
        status_after(inputs) == (match (
            inputs.contains(FrameInput::Request),
            inputs.contains(FrameInput::Callback),
        ) {
            (true, true) => Some(FrameStatus::Ready),
            (true, false) => Some(FrameStatus::RequestedRedraw),
            (false, true) => Some(FrameStatus::Received),
            (false, false) => None,
        }),
    decreases inputs.len(),
{
    if inputs.len() > 0 {
        let rest = inputs.drop_last();
        law_ready_needs_request_and_callback(rest);
        assert forall|x: FrameInput| #[trigger] inputs.contains(x) <==> rest.contains(x) || x
            == inputs.last() by {
            assert(inputs =~= rest.push(inputs.last()));
            assert(rest.push(inputs.last())[rest.len() as int] == inputs.last());
            if rest.contains(x) {
                let i = choose|i: int| 0 <= i < rest.len() && rest[i] == x;
                assert(inputs[i] == x);
            }
        }
        let (a, b) = (rest.contains(FrameInput::Request), rest.contains(FrameInput::Callback));
        match inputs.last() {
            FrameInput::Request => {
                assert(inputs.contains(FrameInput::Request));
                assert(inputs.contains(FrameInput::Callback) == b);
            },
            FrameInput::Callback => {
                assert(inputs.contains(FrameInput::Callback));
                assert(inputs.contains(FrameInput::Request) == a);
            },
        }
    }
}

} // verus!
