//! Bookkeeping and decisions of a multi-GPU KMS display backend: which CRTC
//! drives which connector, what each output is called and where it sits,
//! which buffer a surface renders into next, and when a frame is retried.
//!
//! Everything that touches the kernel, the GPU or the event loop stays with
//! the caller, which reports what happened and acts on what is returned.
//!
//! - [`node`], [`session`]: devices, descriptors and session signals.
//! - [`connector`], [`scanner`]: what a device reports, and the scan that
//!   gives its connectors their CRTCs.
//! - [`output`], [`layout`]: logical outputs and where they are mapped.
//! - [`allocator`], [`surface`]: buffers and the swapchain of a CRTC.
//! - [`scheduler`], [`frame`], [`scene`]: the frame loop of a surface.
//! - [`pointer`]: the cache of uploaded pointer images.
//! - [`udev`], [`laws`]: the state of the backend and what always holds
//!   of it.
//! - [`egl`]: graphics devices by their extensions.
//! - [`x11`], [`window_map`]: the windowed backend and the window stack.

pub mod node;
pub mod session;
pub mod connector;
pub mod scanner;
pub mod output;
pub mod layout;
pub mod allocator;
pub mod surface;
pub mod scheduler;
pub mod frame;
pub mod scene;
pub mod pointer;
pub mod udev;
pub mod laws;
pub mod egl;
pub mod x11;
pub mod window_map;
