//! What to do after a frame was attempted: wait for the next vertical
//! blank, try again after a while, or give up.

use vstd::prelude::*;

verus! {

/// Why a buffer swap failed.
#[derive(Clone, Copy, Debug, PartialEq, Eq, Hash, Structural)]
pub enum FailureCause {
    /// The session is paused and the device ignores mode-setting.
    DeviceInactive,
    /// The kernel refused access, as it does while the session is paused.
    PermissionDenied,
    /// An input/output error of any other kind.
    Io,
    /// Every buffer of the swapchain is in use.
    NoFreeSlots,
    /// A buffer could not be allocated or imported.
    Allocation,
    /// The renderer failed.
    Rendering,
}

/// How a buffer swap failed.
#[derive(Clone, Copy, Debug, PartialEq, Eq, Hash, Structural)]
pub enum SwapBuffersError {
    /// A frame is already pending; the next vertical blank takes it.
    AlreadySwapped,
    /// The swap may work when tried again.
    TemporaryFailure(FailureCause),
    /// The rendering context is gone, and with it every surface and texture.
    ContextLost(FailureCause),
}

/// What the caller does after a frame was attempted.
#[derive(Clone, Copy, Debug, PartialEq, Eq, Hash, Structural)]
pub enum FrameAction {
    /// Nothing: the next vertical blank or the session's resume signal
    /// drives the next frame.
    Wait,
    /// Render the same CRTC again after `delay_ms` milliseconds, once.
    RetryAfter { delay_ms: u64 },
    /// Render the same CRTC again as soon as the event loop is idle.
    RetryWhenIdle,
    /// Stop: the process cannot go on.
    Terminate,
}

/// Where a CRTC stands in its frame loop.
#[derive(Clone, Copy, Debug, PartialEq, Eq, Hash, Structural)]
pub enum FrameState {
    /// Nothing is scheduled.
    Idle,
    /// A first frame was queued to make the first vertical blank arrive.
    AwaitingVBlank,
    /// A frame failed and a retry is scheduled.
    StalledRetrying,
}

/// Delay before a failed frame is tried again: one frame at 60 Hz, in whole
/// milliseconds.
pub const FRAME_RETRY_DELAY_MS: u64 = 1000 / 60;

/// How often a first frame is tried again before the surface is left alone.
pub const INITIAL_RENDER_RETRIES: u8 = 3;

/// A failure that a paused session causes: nothing is wrong, and the
/// resume signal will start rendering again.
pub open spec fn session_induced(cause: FailureCause) -> bool {
    cause == FailureCause::DeviceInactive || cause == FailureCause::PermissionDenied
}

/// What follows a render pass that ended in `result`, where `Ok(true)` means
/// that a frame was rendered and queued and `Ok(false)` that nothing was
/// rendered.
pub open spec fn reschedule_spec(result: Result<bool, SwapBuffersError>) -> FrameAction {
    match result {
        Ok(has_rendered) => if has_rendered {
            FrameAction::Wait
        } else {
            FrameAction::RetryAfter { delay_ms: FRAME_RETRY_DELAY_MS }
        },
        Err(SwapBuffersError::AlreadySwapped) => FrameAction::Wait,
        Err(SwapBuffersError::TemporaryFailure(cause)) => if session_induced(cause) {
            FrameAction::Wait
        } else {
            FrameAction::RetryAfter { delay_ms: FRAME_RETRY_DELAY_MS }
        },
        Err(SwapBuffersError::ContextLost(_)) => FrameAction::Terminate,
    }
}

/// What follows a first frame that ended in `result`, after `retries`
/// earlier retries.
pub open spec fn initial_reschedule_spec(
    result: Result<(), SwapBuffersError>,
    retries: u8,
) -> FrameAction {
    match result {
        Ok(_) => FrameAction::Wait,
        Err(SwapBuffersError::AlreadySwapped) => FrameAction::Wait,
        Err(SwapBuffersError::TemporaryFailure(cause)) => if !session_induced(cause) && retries
            < INITIAL_RENDER_RETRIES {
            FrameAction::RetryWhenIdle
        } else {
            FrameAction::Wait
        },
        Err(SwapBuffersError::ContextLost(_)) => FrameAction::Terminate,
    }
}

/// Whether a paused session causes failures of this kind.
pub fn is_session_induced(cause: FailureCause) -> (induced: bool)
    ensures
        induced == session_induced(cause),
{
    match cause {
        FailureCause::DeviceInactive => true,
        FailureCause::PermissionDenied => true,
        _ => false,
    }
}

/// Decides what follows a render pass that ended in `result`.
pub fn reschedule(result: Result<bool, SwapBuffersError>) -> (action: FrameAction)
    ensures
        action == reschedule_spec(result),
{
    match result {
        Ok(true) => FrameAction::Wait,
        Ok(false) => FrameAction::RetryAfter { delay_ms: FRAME_RETRY_DELAY_MS },
        Err(SwapBuffersError::AlreadySwapped) => FrameAction::Wait,
        Err(SwapBuffersError::TemporaryFailure(cause)) => {
            if is_session_induced(cause) {
                FrameAction::Wait
            } else {
                FrameAction::RetryAfter { delay_ms: FRAME_RETRY_DELAY_MS }
            }
        },
        Err(SwapBuffersError::ContextLost(_)) => FrameAction::Terminate,
    }
}

/// Decides what follows a first frame that ended in `result`, after
/// `retries` earlier retries.
pub fn initial_reschedule(result: Result<(), SwapBuffersError>, retries: u8) -> (action:
    FrameAction)
    ensures
        action == initial_reschedule_spec(result, retries),
{
    match result {
        Ok(_) => FrameAction::Wait,
        Err(SwapBuffersError::AlreadySwapped) => FrameAction::Wait,
        Err(SwapBuffersError::TemporaryFailure(cause)) => {
            if !is_session_induced(cause) && retries < INITIAL_RENDER_RETRIES {
                FrameAction::RetryWhenIdle
            } else {
                FrameAction::Wait
            }
        },
        Err(SwapBuffersError::ContextLost(_)) => FrameAction::Terminate,
    }
}

impl FrameState {
    /// The state after a render pass that ended in `result`: stalled where
    /// a retry is scheduled, unchanged where the process stops, idle
    /// otherwise.
    pub open spec fn after_render_spec(self, result: Result<bool, SwapBuffersError>) -> FrameState {
        match reschedule_spec(result) {
            FrameAction::Wait => FrameState::Idle,
            FrameAction::Terminate => self,
            _ => FrameState::StalledRetrying,
        }
    }

    /// The state after a first frame that ended in `result`, after
    /// `retries` earlier retries: awaiting the vertical blank where the
    /// frame was queued, unchanged where one was pending already or the
    /// process stops, stalled where a retry is scheduled, idle otherwise.
    pub open spec fn after_initial_render_spec(
        self,
        result: Result<(), SwapBuffersError>,
        retries: u8,
    ) -> FrameState {
        match result {
            Ok(_) => FrameState::AwaitingVBlank,
            Err(SwapBuffersError::AlreadySwapped) => self,
            Err(SwapBuffersError::TemporaryFailure(_)) => match initial_reschedule_spec(
                result,
                retries,
            ) {
                FrameAction::RetryWhenIdle => FrameState::StalledRetrying,
                _ => FrameState::Idle,
            },
            Err(SwapBuffersError::ContextLost(_)) => self,
        }
    }

    /// The state after a render pass that ended in `result`.
    pub fn after_render(self, result: Result<bool, SwapBuffersError>) -> (next: FrameState)
        ensures
            next == self.after_render_spec(result),
    {
        match reschedule(result) {
            FrameAction::Wait => FrameState::Idle,
            FrameAction::Terminate => self,
            _ => FrameState::StalledRetrying,
        }
    }

    /// The state after a first frame that ended in `result`, after
    /// `retries` earlier retries.
    pub fn after_initial_render(self, result: Result<(), SwapBuffersError>, retries: u8) -> (next:
        FrameState)
        ensures
            next == self.after_initial_render_spec(result, retries),
    {
        match result {
            Ok(_) => FrameState::AwaitingVBlank,
            Err(SwapBuffersError::AlreadySwapped) => self,
            Err(SwapBuffersError::TemporaryFailure(_)) => match initial_reschedule(
                result,
                retries,
            ) {
                FrameAction::RetryWhenIdle => FrameState::StalledRetrying,
                _ => FrameState::Idle,
            },
            Err(SwapBuffersError::ContextLost(_)) => self,
        }
    }
}

/// A frame that was already swapped schedules no retry.
pub proof fn lemma_already_swapped_waits()
    ensures
        reschedule_spec(Err(SwapBuffersError::AlreadySwapped)) == FrameAction::Wait,
{
}

/// A temporary failure schedules a retry exactly when a paused session is
/// not its cause, and the retry comes after one sixtieth of a second.
pub proof fn lemma_temporary_failure_retry(cause: FailureCause)
    ensures
        session_induced(cause) ==> reschedule_spec(
            Err(SwapBuffersError::TemporaryFailure(cause)),
        ) == FrameAction::Wait,
        !session_induced(cause) ==> reschedule_spec(
            Err(SwapBuffersError::TemporaryFailure(cause)),
        ) == (FrameAction::RetryAfter { delay_ms: 16 }),
{
}

/// After a render pass a surface is stalled exactly when a retry was
/// scheduled, so no retry is ever pending for a surface in another state.
pub proof fn lemma_stalled_iff_retry(state: FrameState, result: Result<bool, SwapBuffersError>)
    requires
        reschedule_spec(result) != FrameAction::Terminate,
    ensures
        state.after_render_spec(result) == FrameState::StalledRetrying <==> reschedule_spec(result)
            is RetryAfter,
{
}

} // verus!
