use vstd::prelude::*;

use crate::network::{link_state_for, spec_link_state_for, LinkState};
use crate::phase::{phase_named, Phase};

verus! {

/// Name of the socket that the image streamer creates in the images
/// directory to capture image data.
pub const IMG_STREAMER_CAPTURE_SOCKET_NAME: &'static str = "streamer-capture.sock";
/// Name of the socket that the image streamer serves image data from.
pub const IMG_STREAMER_SERVE_SOCKET_NAME: &'static str = "streamer-serve.sock";

/// What is found at the streamer's capture path in the images directory.
#[derive(Clone, Copy, Debug, PartialEq, Eq, Structural)]
pub enum SocketState {
    /// Nothing.
    Absent,
    /// A UNIX socket.
    Socket,
    /// Some other kind of file.
    NotSocket,
}

/// Why the hook gives up before contacting the coordinator.
#[derive(Clone, Copy, Debug, PartialEq, Eq, Structural)]
pub enum HookError {
    /// The capture path exists but is not a UNIX socket.
    CaptureNotSocket,
}

/// How the hook takes part in the barrier of a phase.
#[derive(Clone, Copy, Debug, PartialEq, Eq, Structural)]
pub struct BarrierPlan {
    pub phase: Phase,
    /// Start the image streaming pipeline once released.
    pub streaming: bool,
    /// The link state to set on the default interface before contacting the
    /// coordinator.
    pub link: Option<LinkState>,
}

/// What the hook does when the engine runs it.
#[derive(Clone, Copy, Debug, PartialEq, Eq, Structural)]
pub enum HookStep {
    /// Exit with success at once, without contacting the coordinator.
    Skip,
    /// Perform the plan's local action, then join the barrier.
    Join(BarrierPlan),
    /// Exit with failure.
    Fail(HookError),
}

/// The hook's step for `action`, given what lies at the capture path.
pub open spec fn spec_hook_step(action: Seq<char>, capture: SocketState) -> HookStep {
    match phase_named(action) {
        None => HookStep::Skip,
        Some(p) => if p == Phase::PreDump && capture == SocketState::Socket {
            HookStep::Skip
        } else if p == Phase::PreDump && capture == SocketState::NotSocket {
            HookStep::Fail(HookError::CaptureNotSocket)
        } else {
            HookStep::Join(BarrierPlan {
                phase: p,
                streaming: p == Phase::PreStream,
                link: spec_link_state_for(p),
            })
        },
    }
}

/// Decides the hook's step. A pre-dump is skipped when a streamer already
/// captures the images; the network actions come before the barrier; an
/// action that names no phase is a no-op.
pub fn hook_step(action: &str, capture: SocketState) -> (r: HookStep)
    ensures
        r == spec_hook_step(action@, capture),
{
    match Phase::from_name(action) {
        None => HookStep::Skip,
        Some(p) => {
            if p == Phase::PreDump && capture == SocketState::Socket {
                HookStep::Skip
            } else if p == Phase::PreDump && capture == SocketState::NotSocket {
                HookStep::Fail(HookError::CaptureNotSocket)
            } else {
                HookStep::Join(BarrierPlan {
                    phase: p,
                    streaming: p == Phase::PreStream,
                    link: link_state_for(p),
                })
            }
        },
    }
}

} // verus!
