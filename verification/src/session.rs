//! Device file descriptors handed out by the session.

use vstd::prelude::*;
use crate::node::DeviceNode;

verus! {

/// A file descriptor that the session opened and owns.
#[derive(Clone, Copy, Debug, PartialEq, Eq, Hash, Structural)]
pub struct SessionFd(pub i32);

impl SessionFd {
    /// The raw descriptor.
    pub fn as_raw_fd(&self) -> (fd: i32)
        ensures
            fd == self.0,
    {
        self.0
    }
}

/// What the session tells its devices.
#[derive(Clone, Copy, Debug, PartialEq, Eq, Hash, Structural)]
pub enum SessionSignal {
    /// The session was paused: descriptors stay valid, but the kernel
    /// refuses to set modes.
    Paused,
    /// The session is active again.
    Resumed,
    /// One device is active again.
    DeviceActivated { node: DeviceNode },
    /// One device was paused.
    DeviceDeactivated { node: DeviceNode },
}

/// Whether `signal` starts rendering again: the session or a device was
/// activated.
pub open spec fn restarts_rendering(signal: SessionSignal) -> bool {
    signal is Resumed || signal is DeviceActivated
}

/// Whether every CRTC of a device is to be rendered when `signal` arrives.
pub fn render_on_signal(signal: SessionSignal) -> (render: bool)
    ensures
        render == restarts_rendering(signal),
{
    match signal {
        SessionSignal::Resumed => true,
        SessionSignal::DeviceActivated { .. } => true,
        _ => false,
    }
}

/// How far the opening of a device got.
#[derive(Clone, Copy, Debug, PartialEq, Eq, Hash, Structural)]
pub enum DeviceOpen {
    /// The device is open and can be scanned.
    Ready,
    /// The session did not open the device file.
    NoDescriptor,
    /// The descriptor could not be used for mode-setting.
    DrmError,
    /// No allocator could be bound to the descriptor.
    GbmError,
    /// The device number does not name a graphics device.
    NoNode,
}

/// How far the opening of a device got, from what worked: the session's
/// open, the mode-setting device, the allocator, and the lookup of the
/// node. The first step that failed is reported, in that order.
pub open spec fn device_open_spec(opened: bool, drm: bool, gbm: bool, node: bool) -> DeviceOpen {
    if !opened {
        DeviceOpen::NoDescriptor
    } else if !drm {
        DeviceOpen::DrmError
    } else if !gbm {
        DeviceOpen::GbmError
    } else if !node {
        DeviceOpen::NoNode
    } else {
        DeviceOpen::Ready
    }
}

/// Says how far the opening of a device got. A device that is not ready is
/// skipped.
pub fn device_open(opened: bool, drm: bool, gbm: bool, node: bool) -> (outcome: DeviceOpen)
    ensures
        outcome == device_open_spec(opened, drm, gbm, node),
{
    if !opened {
        DeviceOpen::NoDescriptor
    } else if !drm {
        DeviceOpen::DrmError
    } else if !gbm {
        DeviceOpen::GbmError
    } else if !node {
        DeviceOpen::NoNode
    } else {
        DeviceOpen::Ready
    }
}

} // verus!
