//! What is kept for a driven CRTC, and one pass of its frame loop, step by
//! step.
//!
//! A pass begins with a buffer to draw into, goes on when the caller has
//! drawn, and ends when the kernel has answered the page flip. Each step
//! says what the caller does next; the last says whether and when the CRTC
//! is rendered again.

use vstd::prelude::*;
use crate::allocator::{Allocator, Buffer};
use crate::connector::{Interface, Mode};
use crate::node::DeviceNode;
use crate::output::PhysicalSize;
use crate::scheduler::{
    initial_reschedule,
    initial_reschedule_spec,
    reschedule,
    reschedule_spec,
    FailureCause,
    FrameAction,
    FrameState,
    SwapBuffersError,
};
use crate::surface::{RenderSurface, SurfaceView};

verus! {

/// A connector and the CRTC that drives it.
#[derive(Clone, Copy, Debug, PartialEq, Eq, Hash, Structural)]
pub struct Binding {
    pub connector: u32,
    pub interface: Interface,
    pub interface_id: u32,
    pub physical_size: PhysicalSize,
    pub crtc: u32,
    pub mode: Mode,
}

/// Everything kept for one driven CRTC.
pub struct SurfaceData<B: Buffer> {
    device_id: DeviceNode,
    render_node: DeviceNode,
    binding: Binding,
    surface: RenderSurface<B>,
    state: FrameState,
    initial_retries: u8,
}

/// A driven CRTC as a mathematical value.
pub struct SurfaceDataView {
    /// The device the CRTC belongs to.
    pub device_id: DeviceNode,
    /// The GPU that draws its frames.
    pub render_node: DeviceNode,
    pub binding: Binding,
    pub surface: SurfaceView,
    pub state: FrameState,
    /// How often its first frame was tried again.
    pub initial_retries: u8,
}

impl<B: Buffer> View for SurfaceData<B> {
    type V = SurfaceDataView;

    closed spec fn view(&self) -> SurfaceDataView {
        SurfaceDataView {
            device_id: self.device_id,
            render_node: self.render_node,
            binding: self.binding,
            surface: self.surface@,
            state: self.state,
            initial_retries: self.initial_retries,
        }
    }
}

impl<B: Buffer> SurfaceData<B> {
    /// What is kept for a CRTC of `device_id` that was just set up as
    /// `binding` says, with `surface` as its swapchain: nothing is
    /// scheduled for it yet.
    pub fn new(
        device_id: DeviceNode,
        render_node: DeviceNode,
        binding: Binding,
        surface: RenderSurface<B>,
    ) -> (data: SurfaceData<B>)
        ensures
            data@ == (SurfaceDataView {
                device_id,
                render_node,
                binding,
                surface: surface@,
                state: FrameState::Idle,
                initial_retries: 0,
            }),
    {
        SurfaceData {
            device_id,
            render_node,
            binding,
            surface,
            state: FrameState::Idle,
            initial_retries: 0,
        }
    }

    /// The swapchain of the surface.
    pub fn surface(&self) -> (surface: &RenderSurface<B>)
        ensures
            surface@ == self@.surface,
    {
        &self.surface
    }

    /// The CRTC this surface is scanned out by.
    pub fn crtc(&self) -> (crtc: u32)
        ensures
            crtc == self@.binding.crtc,
    {
        self.binding.crtc
    }

    /// The device the CRTC belongs to.
    pub fn device_id(&self) -> (node: DeviceNode)
        ensures
            node == self@.device_id,
    {
        self.device_id
    }

    /// The GPU that draws the frames of this surface.
    pub fn render_node(&self) -> (node: DeviceNode)
        ensures
            node == self@.render_node,
    {
        self.render_node
    }

    /// The connector and mode the CRTC drives.
    pub fn binding(&self) -> (binding: Binding)
        ensures
            binding == self@.binding,
    {
        self.binding
    }

    /// Where the surface stands in its frame loop.
    pub fn state(&self) -> (state: FrameState)
        ensures
            state == self@.state,
    {
        self.state
    }

    /// How often the first frame of the surface was tried again.
    pub fn initial_retries(&self) -> (retries: u8)
        ensures
            retries == self@.initial_retries,
    {
        self.initial_retries
    }
}

/// The views of `surfaces`, in order.
pub open spec fn surface_views<B: Buffer>(surfaces: Seq<SurfaceData<B>>) -> Seq<SurfaceDataView> {
    Seq::new(surfaces.len(), |i: int| surfaces[i]@)
}

/// No two of `surfaces` are scanned out by the same CRTC.
pub open spec fn crtcs_distinct(surfaces: Seq<SurfaceDataView>) -> bool {
    forall|i: int, j: int|
        0 <= i < j < surfaces.len() ==> (#[trigger] surfaces[i]).binding.crtc != (
        #[trigger] surfaces[j]).binding.crtc
}

/// `surfaces` can be the surfaces of the device `node`: no CRTC has two of
/// them, and each belongs to the device and keeps the rules of its
/// swapchain.
pub open spec fn surfaces_wf(node: DeviceNode, surfaces: Seq<SurfaceDataView>) -> bool {
    &&& crtcs_distinct(surfaces)
    &&& forall|i: int|
        0 <= i < surfaces.len() ==> {
            &&& (#[trigger] surfaces[i]).device_id == node
            &&& surfaces[i].surface.wf()
        }
}

/// Whether one of `surfaces` is scanned out by `crtc`.
pub open spec fn holds_crtc(surfaces: Seq<SurfaceDataView>, crtc: u32) -> bool {
    exists|i: int| 0 <= i < surfaces.len() && (#[trigger] surfaces[i]).binding.crtc == crtc
}

/// Which frame a pass draws.
#[derive(Clone, Copy, Debug, PartialEq, Eq, Hash, Structural)]
pub enum FrameKind {
    /// The empty first frame that makes the first vertical blank arrive.
    Initial,
    /// A frame of the scene, drawn after a vertical blank, a retry timer
    /// or the resume of the session.
    Regular,
}

/// What the caller does next in a pass.
#[derive(Clone, Copy, Debug, PartialEq, Eq, Hash, Structural)]
pub enum FrameStep {
    /// Bind the buffer in `slot` and draw; `age` tells how many frames ago
    /// it was queued last, zero if its contents are undefined.
    Bind { slot: usize, age: u8 },
    /// Ask the kernel for a page flip to the buffer in `slot`.
    Flip { slot: usize },
    /// The pass is over.
    Done(FrameAction),
}

/// A frame step with its slot as a mathematical integer.
pub enum FrameStepView {
    Bind { slot: int, age: u8 },
    Flip { slot: int },
    Done(FrameAction),
}

impl View for FrameStep {
    type V = FrameStepView;

    open spec fn view(&self) -> FrameStepView {
        match *self {
            FrameStep::Bind { slot, age } => FrameStepView::Bind { slot: slot as int, age },
            FrameStep::Flip { slot } => FrameStepView::Flip { slot: slot as int },
            FrameStep::Done(action) => FrameStepView::Done(action),
        }
    }
}

/// The outcome of a first frame, which is always drawn.
pub open spec fn initial_result(result: Result<bool, SwapBuffersError>) -> Result<
    (),
    SwapBuffersError,
> {
    match result {
        Ok(_) => Ok(()),
        Err(error) => Err(error),
    }
}

impl SurfaceDataView {
    /// What follows a pass of `kind` that ended in `result`.
    pub open spec fn action_after(
        self,
        kind: FrameKind,
        result: Result<bool, SwapBuffersError>,
    ) -> FrameAction {
        match kind {
            FrameKind::Regular => reschedule_spec(result),
            FrameKind::Initial => initial_reschedule_spec(
                initial_result(result),
                self.initial_retries,
            ),
        }
    }

    /// The surface after a pass of `kind` that ended in `result`. A first
    /// frame counts its retries, and starts counting anew when none is
    /// scheduled.
    pub open spec fn finished(
        self,
        kind: FrameKind,
        result: Result<bool, SwapBuffersError>,
    ) -> SurfaceDataView {
        match kind {
            FrameKind::Regular => SurfaceDataView {
                state: self.state.after_render_spec(result),
                ..self
            },
            FrameKind::Initial => SurfaceDataView {
                state: self.state.after_initial_render_spec(
                    initial_result(result),
                    self.initial_retries,
                ),
                initial_retries: if self.action_after(kind, result) is RetryWhenIdle {
                    (self.initial_retries + 1) as u8
                } else {
                    0
                },
                ..self
            },
        }
    }

    /// Whether a pass of `kind` needs a new buffer to begin: it hands out a
    /// slot that holds none yet.
    pub open spec fn needs_allocation(self, kind: FrameKind, has_output: bool) -> bool {
        let shown = match kind {
            FrameKind::Regular => self.surface.presented(),
            FrameKind::Initial => self.surface,
        };
        !(kind is Regular && !has_output) && !shown.allocated[shown.target()]
    }

    /// What beginning a pass of `kind` does to the allocator of the device,
    /// `before` then and `after` now, where `error` is the error it gave if
    /// it gave one. The allocator is left alone unless the pass needs a
    /// new buffer. If it does, the allocator is asked once, for a buffer of
    /// the size, pixel format and layouts of the surface, and answers with
    /// the error or with a buffer.
    pub open spec fn asked<A: Allocator<B>, B: Buffer>(
        self,
        kind: FrameKind,
        has_output: bool,
        before: &A,
        after: &A,
        error: Option<A::Error>,
    ) -> bool {
        if self.needs_allocation(kind, has_output) {
            match error {
                Some(failure) => self.surface.requested(
                    before,
                    after,
                    Err::<B, A::Error>(failure),
                ),
                None => exists|buffer: B| #[trigger]
                    self.surface.requested(before, after, Ok::<B, A::Error>(buffer)),
            }
        } else {
            error is None && *before == *after
        }
    }

    /// The surface and the step after a pass of `kind` began. A regular
    /// pass first records the vertical blank, and is over at once when the
    /// surface has no output. Then the next buffer is handed out; where
    /// that needs an allocation and the allocation fails, the rendering
    /// context counts as lost.
    pub open spec fn begun(self, kind: FrameKind, has_output: bool, allocation_failed: bool) -> (
        SurfaceDataView,
        FrameStepView,
    ) {
        let shown = match kind {
            FrameKind::Regular => SurfaceDataView { surface: self.surface.presented(), ..self },
            FrameKind::Initial => self,
        };
        if kind is Regular && !has_output {
            (shown.finished(kind, Ok(true)), FrameStepView::Done(shown.action_after(kind, Ok(true))))
        } else if allocation_failed {
            let lost = Err(SwapBuffersError::ContextLost(FailureCause::Allocation));
            (shown.finished(kind, lost), FrameStepView::Done(shown.action_after(kind, lost)))
        } else {
            let slot = shown.surface.target();
            (
                SurfaceDataView { surface: shown.surface.acquired(slot), ..shown },
                FrameStepView::Bind { slot, age: shown.surface.ages[slot] },
            )
        }
    }

    /// Whether the caller's drawing, with outcome `outcome`, is followed
    /// by queueing the buffer.
    pub open spec fn queues(kind: FrameKind, outcome: Result<bool, SwapBuffersError>) -> bool {
        match kind {
            FrameKind::Regular => outcome == Ok::<bool, SwapBuffersError>(true),
            FrameKind::Initial => outcome is Ok,
        }
    }

    /// The surface and the step after the caller drew, with `outcome`:
    /// `Ok(true)` if a frame was drawn, `Ok(false)` if there was nothing to
    /// draw. A drawn frame is queued: a page flip is asked for, unless a
    /// frame is pending already or no buffer was handed out.
    pub open spec fn drawn(self, kind: FrameKind, outcome: Result<bool, SwapBuffersError>) -> (
        SurfaceDataView,
        FrameStepView,
    ) {
        if Self::queues(kind, outcome) {
            match self.surface.queue_spec() {
                Ok(Some(slot)) => (self, FrameStepView::Flip { slot }),
                Ok(None) => (
                    self.finished(kind, Ok(true)),
                    FrameStepView::Done(self.action_after(kind, Ok(true))),
                ),
                Err(error) => (
                    self.finished(kind, Err(error)),
                    FrameStepView::Done(self.action_after(kind, Err(error))),
                ),
            }
        } else {
            (self.finished(kind, outcome), FrameStepView::Done(self.action_after(kind, outcome)))
        }
    }

    /// The surface and what follows after the kernel answered the page flip
    /// with `outcome`. After the flip of a first frame the ages of all
    /// buffers are forgotten.
    pub open spec fn flipped(self, kind: FrameKind, outcome: Result<(), SwapBuffersError>) -> (
        SurfaceDataView,
        FrameAction,
    ) {
        match outcome {
            Ok(_) => {
                let swapped = match kind {
                    FrameKind::Regular => self.surface.flipped(),
                    FrameKind::Initial => self.surface.flipped().reset(),
                };
                let after = SurfaceDataView { surface: swapped, ..self };
                (after.finished(kind, Ok(true)), after.action_after(kind, Ok(true)))
            },
            Err(error) => (self.finished(kind, Err(error)), self.action_after(kind, Err(error))),
        }
    }
}

/// While a frame is pending, drawing another schedules nothing: no page flip
/// is asked for and no retry is set up, whatever the kind of the pass.
pub proof fn lemma_pending_frame_schedules_nothing(surface: SurfaceDataView, kind: FrameKind)
    requires
        surface.surface.pending is Some,
    ensures
        surface.drawn(kind, Ok(true)).1 == FrameStepView::Done(FrameAction::Wait),
        surface.drawn(kind, Ok(true)).0.surface == surface.surface,
{
}

/// A page flip that fails because the session is paused schedules no retry
/// and leaves the swapchain as it was; one that fails for another passing
/// reason is tried again after a sixtieth of a second.
pub proof fn lemma_failed_flip(surface: SurfaceDataView, cause: FailureCause)
    ensures
        surface.flipped(FrameKind::Regular, Err(SwapBuffersError::TemporaryFailure(cause))).0.surface
            == surface.surface,
        surface.flipped(FrameKind::Regular, Err(SwapBuffersError::TemporaryFailure(cause))).1
            == if crate::scheduler::session_induced(cause) {
            FrameAction::Wait
        } else {
            FrameAction::RetryAfter { delay_ms: 16 }
        },
{
}

impl<B: Buffer> SurfaceData<B> {
    /// The surface keeps the rules of its swapchain.
    pub open spec fn wf(&self) -> bool {
        self@.surface.wf()
    }

    /// Ends a pass of `kind` with `result`.
    fn finish(&mut self, kind: FrameKind, result: Result<bool, SwapBuffersError>) -> (action:
        FrameAction)
        ensures
            final(self)@ == old(self)@.finished(kind, result),
            action == old(self)@.action_after(kind, result),
    {
        match kind {
            FrameKind::Regular => {
                self.state = self.state.after_render(result);
                reschedule(result)
            },
            FrameKind::Initial => {
                let unit: Result<(), SwapBuffersError> = match result {
                    Ok(_) => Ok(()),
                    Err(error) => Err(error),
                };
                let action = initial_reschedule(unit, self.initial_retries);
                self.state = self.state.after_initial_render(unit, self.initial_retries);
                self.initial_retries = match action {
                    FrameAction::RetryWhenIdle => self.initial_retries + 1,
                    _ => 0,
                };
                action
            },
        }
    }

    /// Begins a pass of `kind`. `has_output` tells whether an output is
    /// mapped for the surface. Returns the step to take, and the
    /// allocator's error where a buffer was needed and could not be had.
    /// The allocator is only asked where a buffer is needed.
    pub fn frame_begin<A: Allocator<B>>(
        &mut self,
        allocator: &mut A,
        kind: FrameKind,
        has_output: bool,
    ) -> (begun: (FrameStep, Option<A::Error>))
        requires
            old(self).wf(),
        ensures
            final(self).wf(),
            (final(self)@, begun.0@) == old(self)@.begun(kind, has_output, begun.1 is Some),
            begun.1 is Some ==> old(self)@.needs_allocation(kind, has_output),
            old(self)@.asked::<A, B>(
                kind,
                has_output,
                old(allocator),
                final(allocator),
                begun.1,
            ),
    {
        match kind {
            FrameKind::Regular => {
                self.surface.frame_submitted();
                if !has_output {
                    return (FrameStep::Done(self.finish(kind, Ok(true))), None);
                }
            },
            FrameKind::Initial => {},
        }
        let ghost shown = self@.surface;
        match self.surface.next_buffer(allocator) {
            Ok((slot, age)) => {
                proof {
                    if !shown.allocated[shown.target()] {
                        let buffer = self.surface.buffer_spec(slot as int).unwrap();
                        assert(shown.requested(
                            &*old(allocator),
                            &*allocator,
                            Ok::<B, A::Error>(buffer),
                        ));
                        assert(old(self)@.surface.requested(
                            &*old(allocator),
                            &*allocator,
                            Ok::<B, A::Error>(buffer),
                        ));
                    }
                }
                (FrameStep::Bind { slot, age }, None)
            },
            Err(error) => {
                let lost = Err(SwapBuffersError::ContextLost(FailureCause::Allocation));
                (FrameStep::Done(self.finish(kind, lost)), Some(error))
            },
        }
    }

    /// Goes on with a pass of `kind` after the caller drew, with `outcome`.
    pub fn frame_drawn(&mut self, kind: FrameKind, outcome: Result<bool, SwapBuffersError>) -> (step:
        FrameStep)
        requires
            old(self).wf(),
        ensures
            final(self).wf(),
            (final(self)@, step@) == old(self)@.drawn(kind, outcome),
    {
        let queues = match kind {
            FrameKind::Regular => match outcome {
                Ok(true) => true,
                _ => false,
            },
            FrameKind::Initial => outcome.is_ok(),
        };
        if queues {
            match self.surface.queue_buffer() {
                Ok(Some(slot)) => FrameStep::Flip { slot },
                Ok(None) => FrameStep::Done(self.finish(kind, Ok(true))),
                Err(error) => FrameStep::Done(self.finish(kind, Err(error))),
            }
        } else {
            FrameStep::Done(self.finish(kind, outcome))
        }
    }

    /// Ends a pass of `kind` with the kernel's answer to the page flip.
    pub fn frame_flipped(&mut self, kind: FrameKind, outcome: Result<(), SwapBuffersError>) -> (action:
        FrameAction)
        requires
            old(self).wf(),
        ensures
            final(self).wf(),
            (final(self)@, action) == old(self)@.flipped(kind, outcome),
    {
        match self.surface.flip_submitted(outcome) {
            Ok(_) => {
                match kind {
                    FrameKind::Initial => {
                        self.surface.reset_buffers();
                    },
                    FrameKind::Regular => {},
                }
                self.finish(kind, Ok(true))
            },
            Err(error) => self.finish(kind, Err(error)),
        }
    }

    /// Forgets the age of every buffer of the surface.
    pub fn reset_buffers(&mut self)
        requires
            old(self).wf(),
        ensures
            final(self).wf(),
            final(self)@ == (SurfaceDataView {
                surface: old(self)@.surface.reset(),
                ..old(self)@
            }),
    {
        self.surface.reset_buffers();
    }
}

} // verus!
