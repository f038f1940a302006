use kms_backend::node::DeviceNode;
use kms_backend::scheduler::{
    initial_reschedule, is_session_induced, reschedule, FailureCause, FrameAction, FrameState,
    SwapBuffersError, FRAME_RETRY_DELAY_MS, INITIAL_RENDER_RETRIES,
};
use kms_backend::session::{
    device_open, render_on_signal, DeviceOpen, SessionFd, SessionSignal,
};

const CAUSES: [FailureCause; 6] = [
    FailureCause::DeviceInactive,
    FailureCause::PermissionDenied,
    FailureCause::Io,
    FailureCause::NoFreeSlots,
    FailureCause::Allocation,
    FailureCause::Rendering,
];

const STATES: [FrameState; 3] =
    [FrameState::Idle, FrameState::AwaitingVBlank, FrameState::StalledRetrying];

#[test]
fn retry_delay_is_one_frame_at_sixty_hertz() {
    assert_eq!(FRAME_RETRY_DELAY_MS, 16);
    assert_eq!(INITIAL_RENDER_RETRIES, 3);
}

#[test]
fn suspend_failures_are_session_induced() {
    assert!(is_session_induced(FailureCause::DeviceInactive));
    assert!(is_session_induced(FailureCause::PermissionDenied));
    assert!(!is_session_induced(FailureCause::Io));
    assert!(!is_session_induced(FailureCause::NoFreeSlots));
    assert!(!is_session_induced(FailureCause::Allocation));
    assert!(!is_session_induced(FailureCause::Rendering));
}

#[test]
fn already_swapped_schedules_no_retry() {
    assert_eq!(reschedule(Err(SwapBuffersError::AlreadySwapped)), FrameAction::Wait);
    assert_eq!(initial_reschedule(Err(SwapBuffersError::AlreadySwapped), 0), FrameAction::Wait);
}

#[test]
fn device_inactive_schedules_no_retry_but_io_error_does() {
    assert_eq!(
        reschedule(Err(SwapBuffersError::TemporaryFailure(FailureCause::DeviceInactive))),
        FrameAction::Wait
    );
    assert_eq!(
        reschedule(Err(SwapBuffersError::TemporaryFailure(FailureCause::PermissionDenied))),
        FrameAction::Wait
    );
    assert_eq!(
        reschedule(Err(SwapBuffersError::TemporaryFailure(FailureCause::Io))),
        FrameAction::RetryAfter { delay_ms: 16 }
    );
    assert_eq!(
        reschedule(Err(SwapBuffersError::TemporaryFailure(FailureCause::NoFreeSlots))),
        FrameAction::RetryAfter { delay_ms: 16 }
    );
}

#[test]
fn context_loss_terminates() {
    for cause in CAUSES {
        assert_eq!(reschedule(Err(SwapBuffersError::ContextLost(cause))), FrameAction::Terminate);
        assert_eq!(
            initial_reschedule(Err(SwapBuffersError::ContextLost(cause)), 0),
            FrameAction::Terminate
        );
    }
}

#[test]
fn queued_frame_waits_and_empty_frame_retries() {
    assert_eq!(reschedule(Ok(true)), FrameAction::Wait);
    assert_eq!(reschedule(Ok(false)), FrameAction::RetryAfter { delay_ms: 16 });
}

#[test]
fn state_after_render() {
    for state in STATES {
        assert_eq!(state.after_render(Ok(true)), FrameState::Idle);
        assert_eq!(state.after_render(Ok(false)), FrameState::StalledRetrying);
        assert_eq!(state.after_render(Err(SwapBuffersError::AlreadySwapped)), FrameState::Idle);
        for cause in CAUSES {
            let failure = Err(SwapBuffersError::TemporaryFailure(cause));
            let expected = if is_session_induced(cause) {
                FrameState::Idle
            } else {
                FrameState::StalledRetrying
            };
            assert_eq!(state.after_render(failure), expected);
            assert_eq!(state.after_render(Err(SwapBuffersError::ContextLost(cause))), state);
        }
    }
}

#[test]
fn stalled_exactly_when_a_retry_is_scheduled() {
    let mut results: Vec<Result<bool, SwapBuffersError>> =
        vec![Ok(true), Ok(false), Err(SwapBuffersError::AlreadySwapped)];
    for cause in CAUSES {
        results.push(Err(SwapBuffersError::TemporaryFailure(cause)));
    }
    for state in STATES {
        for result in &results {
            let retry = matches!(reschedule(*result), FrameAction::RetryAfter { .. });
            assert_eq!(state.after_render(*result) == FrameState::StalledRetrying, retry);
        }
    }
}

#[test]
fn first_frame_is_retried_a_bounded_number_of_times() {
    let failure = Err(SwapBuffersError::TemporaryFailure(FailureCause::Io));
    assert_eq!(initial_reschedule(failure, 0), FrameAction::RetryWhenIdle);
    assert_eq!(initial_reschedule(failure, 1), FrameAction::RetryWhenIdle);
    assert_eq!(initial_reschedule(failure, 2), FrameAction::RetryWhenIdle);
    assert_eq!(initial_reschedule(failure, 3), FrameAction::Wait);
    assert_eq!(initial_reschedule(failure, 255), FrameAction::Wait);
    let suspended = Err(SwapBuffersError::TemporaryFailure(FailureCause::DeviceInactive));
    assert_eq!(initial_reschedule(suspended, 0), FrameAction::Wait);
    assert_eq!(initial_reschedule(Ok(()), 0), FrameAction::Wait);
    assert_eq!(initial_reschedule(Ok(()), 3), FrameAction::Wait);
}

#[test]
fn state_after_first_frame() {
    let failure = Err(SwapBuffersError::TemporaryFailure(FailureCause::Io));
    let suspended = Err(SwapBuffersError::TemporaryFailure(FailureCause::PermissionDenied));
    for state in STATES {
        assert_eq!(state.after_initial_render(Ok(()), 0), FrameState::AwaitingVBlank);
        assert_eq!(state.after_initial_render(Err(SwapBuffersError::AlreadySwapped), 0), state);
        assert_eq!(state.after_initial_render(failure, 0), FrameState::StalledRetrying);
        assert_eq!(state.after_initial_render(failure, 2), FrameState::StalledRetrying);
        assert_eq!(state.after_initial_render(failure, 3), FrameState::Idle);
        assert_eq!(state.after_initial_render(suspended, 0), FrameState::Idle);
        assert_eq!(
            state.after_initial_render(
                Err(SwapBuffersError::ContextLost(FailureCause::Rendering)),
                0
            ),
            state
        );
    }
}

#[test]
fn activation_starts_rendering_again() {
    let node = DeviceNode::from_dev_id(0xe200);
    assert!(render_on_signal(SessionSignal::Resumed));
    assert!(render_on_signal(SessionSignal::DeviceActivated { node }));
    assert!(!render_on_signal(SessionSignal::Paused));
    assert!(!render_on_signal(SessionSignal::DeviceDeactivated { node }));
}

#[test]
fn device_open_reports_the_first_failure() {
    assert_eq!(device_open(true, true, true, true), DeviceOpen::Ready);
    assert_eq!(device_open(false, true, true, true), DeviceOpen::NoDescriptor);
    assert_eq!(device_open(false, false, false, false), DeviceOpen::NoDescriptor);
    assert_eq!(device_open(true, false, true, true), DeviceOpen::DrmError);
    assert_eq!(device_open(true, false, false, false), DeviceOpen::DrmError);
    assert_eq!(device_open(true, true, false, true), DeviceOpen::GbmError);
    assert_eq!(device_open(true, true, false, false), DeviceOpen::GbmError);
    assert_eq!(device_open(true, true, true, false), DeviceOpen::NoNode);
}

#[test]
fn session_fd_keeps_the_raw_descriptor() {
    assert_eq!(SessionFd(7).as_raw_fd(), 7);
    assert_eq!(SessionFd(-1).as_raw_fd(), -1);
    let fd = SessionFd(3);
    let copy = fd;
    assert_eq!(fd, copy);
}
