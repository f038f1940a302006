//! A render surface's swapchain: which buffer is on screen, which is queued,
//! which is being drawn into, and how old the contents of each are.

use vstd::prelude::*;
use crate::allocator::{Allocator, Buffer};
use crate::scheduler::SwapBuffersError;

verus! {

/// Number of buffers a swapchain rotates through.
pub const SLOT_CAP: usize = 4;

/// A swapchain as a mathematical value.
pub struct SurfaceView {
    /// Size of its buffers in pixels.
    pub width: u32,
    pub height: u32,
    /// Pixel format of its buffers.
    pub fourcc: drm_fourcc::DrmFourcc,
    /// The memory layouts its buffers may have.
    pub modifiers: Seq<drm_fourcc::DrmModifier>,
    /// For each slot, how many frames ago its buffer was queued; zero for
    /// one that never was, or not since the last reset.
    pub ages: Seq<u8>,
    /// For each slot, whether it holds a buffer.
    pub allocated: Seq<bool>,
    /// The slot on screen.
    pub current: int,
    /// The slot queued for the next vertical blank.
    pub pending: Option<int>,
    /// The slot handed out for drawing.
    pub next: Option<int>,
}

impl SurfaceView {
    /// Exactly one buffer is current, at most one is pending and at most one
    /// handed out; they are three different buffers, and each exists.
    pub open spec fn wf(self) -> bool {
        &&& self.ages.len() == SLOT_CAP
        &&& self.allocated.len() == SLOT_CAP
        &&& 0 <= self.current < SLOT_CAP
        &&& self.allocated[self.current]
        &&& (self.pending matches Some(p) ==> 0 <= p < SLOT_CAP && p != self.current
            && self.allocated[p])
        &&& (self.next matches Some(n) ==> 0 <= n < SLOT_CAP && n != self.current && self.pending
            != Some(n) && self.allocated[n])
    }

    /// Whether slot `i` is on screen, queued or handed out.
    pub open spec fn in_use(self, i: int) -> bool {
        i == self.current || self.pending == Some(i) || self.next == Some(i)
    }

    /// The lowest slot from `from` on that is not in use; `SLOT_CAP` if
    /// there is none.
    pub open spec fn first_free_from(self, from: int) -> int
        decreases SLOT_CAP - from,
    {
        if from >= SLOT_CAP {
            SLOT_CAP as int
        } else if !self.in_use(from) {
            from
        } else {
            self.first_free_from(from + 1)
        }
    }

    /// The slot that is drawn into next: the one handed out, else the
    /// lowest that is not in use.
    pub open spec fn target(self) -> int {
        match self.next {
            Some(n) => n,
            None => self.first_free_from(0),
        }
    }

    /// The slot that was queued last: the pending one, else the current.
    pub open spec fn front(self) -> int {
        match self.pending {
            Some(p) => p,
            None => self.current,
        }
    }

    /// A surface whose first buffer is on screen.
    pub open spec fn initial(
        width: u32,
        height: u32,
        fourcc: drm_fourcc::DrmFourcc,
        modifiers: Seq<drm_fourcc::DrmModifier>,
    ) -> SurfaceView {
        SurfaceView {
            width,
            height,
            fourcc,
            modifiers,
            ages: Seq::new(SLOT_CAP as nat, |i: int| 0u8),
            allocated: Seq::new(SLOT_CAP as nat, |i: int| i == 0),
            current: 0,
            pending: None,
            next: None,
        }
    }

    /// Whether `before` may answer a request for one more buffer of this
    /// surface with `result`, and be `after` then: a request for a buffer
    /// of the size and pixel format of the surface, in one of its layouts.
    pub open spec fn requested<A: Allocator<B>, B: Buffer>(
        self,
        before: &A,
        after: &A,
        result: Result<B, A::Error>,
    ) -> bool {
        before.allocates(after, self.width, self.height, self.fourcc, self.modifiers, result)
    }

    /// After `slot` was handed out.
    pub open spec fn acquired(self, slot: int) -> SurfaceView {
        SurfaceView { next: Some(slot), allocated: self.allocated.update(slot, true), ..self }
    }

    /// Ages after the buffer in `shown` was queued: it is one frame old, and
    /// every other buffer that was queued before is a frame older, up to
    /// 255.
    pub open spec fn aged(self, shown: int) -> Seq<u8> {
        Seq::new(
            self.ages.len(),
            |i: int|
                if i == shown {
                    1u8
                } else if self.allocated[i] && 0 < self.ages[i] < 255 {
                    (self.ages[i] + 1) as u8
                } else {
                    self.ages[i]
                },
        )
    }

    /// What `queue_buffer` answers: the slot to flip to; nothing where no
    /// buffer was handed out; `AlreadySwapped` while a frame is pending.
    pub open spec fn queue_spec(self) -> Result<Option<int>, SwapBuffersError> {
        if self.pending is Some {
            Err(SwapBuffersError::AlreadySwapped)
        } else {
            Ok(self.next)
        }
    }

    /// After the kernel accepted the flip to the buffer handed out.
    pub open spec fn flipped(self) -> SurfaceView {
        match self.queue_spec() {
            Ok(Some(n)) => SurfaceView {
                pending: Some(n),
                next: None,
                ages: self.aged(n),
                ..self
            },
            _ => self,
        }
    }

    /// After the vertical blank: the pending buffer is on screen and the one
    /// it replaced is free.
    pub open spec fn presented(self) -> SurfaceView {
        match self.pending {
            Some(p) => SurfaceView { current: p, pending: None, ..self },
            None => self,
        }
    }

    /// After the contents of the buffers were lost: no buffer has an age,
    /// and only those in use are kept.
    pub open spec fn reset(self) -> SurfaceView {
        SurfaceView {
            ages: Seq::new(self.ages.len(), |i: int| 0u8),
            allocated: Seq::new(
                self.allocated.len(),
                |i: int| self.allocated[i] && self.in_use(i),
            ),
            ..self
        }
    }
}

/// With four slots and at most three in use, one is always free.
pub proof fn lemma_free_slot_exists(v: SurfaceView)
    requires
        v.wf(),
    ensures
        0 <= v.first_free_from(0) < SLOT_CAP,
        !v.in_use(v.first_free_from(0)),
        forall|i: int| 0 <= i < v.first_free_from(0) ==> v.in_use(i),
{
    reveal_with_fuel(SurfaceView::first_free_from, 5);
}

/// The buffer handed out for drawing is never the one queued last, whatever
/// happened to the surface in between.
pub proof fn lemma_target_differs_from_front(v: SurfaceView)
    requires
        v.wf(),
    ensures
        v.target() != v.front(),
        v.target() != v.current,
        v.pending != Some(v.target()),
{
    lemma_free_slot_exists(v);
}

/// A flip makes the buffer that was drawn into the one queued last, and a
/// vertical blank or a reset leaves the one queued last what it was.
pub proof fn lemma_front_is_last_queued(v: SurfaceView)
    requires
        v.wf(),
    ensures
        v.queue_spec() matches Ok(Some(n)) ==> v.flipped().front() == n,
        v.presented().front() == v.front(),
        v.reset().front() == v.front(),
        v.flipped().wf(),
        v.presented().wf(),
        v.reset().wf(),
{
}

/// The swapchain of one CRTC.
pub struct RenderSurface<B: Buffer> {
    width: u32,
    height: u32,
    fourcc: drm_fourcc::DrmFourcc,
    modifiers: Vec<drm_fourcc::DrmModifier>,
    ages: Vec<u8>,
    buffers: Vec<Option<B>>,
    current: usize,
    pending: Option<usize>,
    next: Option<usize>,
}

/// A slot as a mathematical integer.
pub open spec fn index_view(i: Option<usize>) -> Option<int> {
    match i {
        Some(i) => Some(i as int),
        None => None,
    }
}

impl<B: Buffer> View for RenderSurface<B> {
    type V = SurfaceView;

    closed spec fn view(&self) -> SurfaceView {
        SurfaceView {
            width: self.width,
            height: self.height,
            fourcc: self.fourcc,
            modifiers: self.modifiers@,
            ages: self.ages@,
            allocated: Seq::new(self.buffers@.len(), |i: int| self.buffers@[i] is Some),
            current: self.current as int,
            pending: index_view(self.pending),
            next: index_view(self.next),
        }
    }
}

impl<B: Buffer> RenderSurface<B> {
    /// The surface keeps the rules of its swapchain.
    pub open spec fn wf(&self) -> bool {
        self@.wf()
    }

    /// The buffer in slot `i`, if it holds one.
    pub closed spec fn buffer_spec(&self, i: int) -> Option<B> {
        if 0 <= i < self.buffers@.len() {
            self.buffers@[i]
        } else {
            None
        }
    }

    /// Whether `created` is what creating a surface of the given size,
    /// pixel format and layouts gives with an allocator that was `before`
    /// and is `after`. The allocator was asked once, for a first buffer of
    /// that size and format. Where it gave one, the surface shows that
    /// buffer and holds no other; where it gave an error, that error is
    /// returned.
    pub open spec fn created_by<A: Allocator<B>>(
        created: Result<RenderSurface<B>, A::Error>,
        before: &A,
        after: &A,
        width: u32,
        height: u32,
        fourcc: drm_fourcc::DrmFourcc,
        modifiers: Seq<drm_fourcc::DrmModifier>,
    ) -> bool {
        match created {
            Ok(surface) => {
                &&& surface.wf()
                &&& surface@ == SurfaceView::initial(width, height, fourcc, modifiers)
                &&& surface.buffer_spec(0) matches Some(first) && surface@.requested(
                    before,
                    after,
                    Ok::<B, A::Error>(first),
                )
                &&& forall|i: int| i != 0 ==> surface.buffer_spec(i) is None
            },
            Err(error) => SurfaceView::initial(width, height, fourcc, modifiers).requested(
                before,
                after,
                Err::<B, A::Error>(error),
            ),
        }
    }

    /// A surface that shows `first`, with buffers of the given size and
    /// pixel format.
    pub fn with_first_buffer(
        first: B,
        width: u32,
        height: u32,
        fourcc: drm_fourcc::DrmFourcc,
        modifiers: Vec<drm_fourcc::DrmModifier>,
    ) -> (surface: RenderSurface<B>)
        ensures
            surface.wf(),
            surface@ == SurfaceView::initial(width, height, fourcc, modifiers@),
            surface.buffer_spec(0) == Some(first),
            forall|i: int| i != 0 ==> surface.buffer_spec(i) is None,
    {
        let mut ages: Vec<u8> = Vec::new();
        let mut buffers: Vec<Option<B>> = Vec::new();
        buffers.push(Some(first));
        ages.push(0);
        while ages.len() < SLOT_CAP
            invariant
                1 <= ages.len() <= SLOT_CAP,
                ages.len() == buffers.len(),
                buffers@[0] == Some(first),
                forall|i: int| 0 <= i < ages.len() ==> ages@[i] == 0,
                forall|i: int| 1 <= i < buffers.len() ==> buffers@[i] is None,
            decreases SLOT_CAP - ages.len(),
        {
            ages.push(0);
            buffers.push(None);
        }
        let surface = RenderSurface {
            width,
            height,
            fourcc,
            modifiers,
            ages,
            buffers,
            current: 0,
            pending: None,
            next: None,
        };
        assert(surface@.ages =~= SurfaceView::initial(width, height, fourcc, modifiers@).ages);
        assert(surface@.allocated =~= SurfaceView::initial(
            width,
            height,
            fourcc,
            modifiers@,
        ).allocated);
        surface
    }

    /// Creates the surface of a CRTC: asks `allocator` once, for a buffer
    /// of the given size and pixel format in one of the given layouts, and
    /// puts the buffer it gives on screen. Fails exactly when the allocator
    /// does, with its error.
    pub fn new<A: Allocator<B>>(
        allocator: &mut A,
        width: u32,
        height: u32,
        fourcc: drm_fourcc::DrmFourcc,
        modifiers: Vec<drm_fourcc::DrmModifier>,
    ) -> (created: Result<RenderSurface<B>, A::Error>)
        ensures
            RenderSurface::created_by(
                created,
                old(allocator),
                final(allocator),
                width,
                height,
                fourcc,
                modifiers@,
            ),
    {
        match allocator.create_buffer(width, height, fourcc, modifiers.as_slice()) {
            Ok(first) => Ok(RenderSurface::with_first_buffer(first, width, height, fourcc, modifiers)),
            Err(error) => Err(error),
        }
    }

    /// The slot on screen.
    pub fn current(&self) -> (slot: usize)
        ensures
            slot == self@.current,
    {
        self.current
    }

    /// The slot queued for the next vertical blank.
    pub fn pending(&self) -> (slot: Option<usize>)
        ensures
            index_view(slot) == self@.pending,
    {
        self.pending
    }

    /// The buffer in `slot`, if it holds one.
    pub fn buffer(&self, slot: usize) -> (buffer: Option<&B>)
        ensures
            match buffer {
                Some(b) => self.buffer_spec(slot as int) == Some(*b),
                None => self.buffer_spec(slot as int) is None,
            },
            buffer is Some <==> slot < self@.allocated.len() && self@.allocated[slot as int],
    {
        if slot < self.buffers.len() {
            self.buffers[slot].as_ref()
        } else {
            None
        }
    }

    /// The slot that `next_buffer` hands out, and whether it still needs a
    /// buffer.
    fn target(&self) -> (found: (usize, bool))
        requires
            self.wf(),
        ensures
            found.0 == self@.target(),
            found.0 < SLOT_CAP,
            found.1 == !self@.allocated[found.0 as int],
            !found.1 ==> self.buffers@[found.0 as int] is Some,
            found.1 ==> self@.next is None,
    {
        proof {
            lemma_free_slot_exists(self@);
        }
        match self.next {
            Some(n) => (n, false),
            None => {
                let mut i: usize = 0;
                while i < SLOT_CAP
                    invariant
                        self.wf(),
                        self.next is None,
                        i <= SLOT_CAP,
                        self@.first_free_from(0) == self@.first_free_from(i as int),
                        0 <= self@.first_free_from(0) < SLOT_CAP,
                    decreases SLOT_CAP - i,
                {
                    if i != self.current && self.pending != Some(i) {
                        let empty = self.buffers[i].is_none();
                        return (i, empty);
                    }
                    i += 1;
                }
                (0, false)
            },
        }
    }

    /// Ends `next_buffer`: hands out `slot`, with the buffer that the
    /// allocation gave if one was needed.
    fn hand_out(&mut self, slot: usize, fresh: Option<B>) -> (handed: (usize, u8))
        requires
            old(self).wf(),
            slot == old(self)@.target(),
            slot < SLOT_CAP,
            fresh is None ==> old(self)@.allocated[slot as int],
        ensures
            final(self).wf(),
            final(self)@ == old(self)@.acquired(slot as int),
            handed == (slot, old(self)@.ages[slot as int]),
            forall|i: int| i != slot ==> final(self).buffer_spec(i) == old(self).buffer_spec(i),
            final(self).buffer_spec(slot as int) == match fresh {
                Some(buffer) => Some(buffer),
                None => old(self).buffer_spec(slot as int),
            },
    {
        proof {
            lemma_free_slot_exists(self@);
        }
        let ghost before = self@;
        if fresh.is_some() {
            self.buffers.set(slot, fresh);
        }
        self.next = Some(slot);
        assert(self@.allocated =~= before.allocated.update(slot as int, true));
        (slot, self.ages[slot])
    }

    /// Hands out the buffer to draw the next frame into, with its age: the
    /// one handed out before if it was not queued since, else the lowest
    /// slot that is neither on screen nor pending. A slot that holds no
    /// buffer yet gets one from `allocator`, which is asked once, for a
    /// buffer of the size, pixel format and layouts of the surface; only
    /// then can this fail, with the allocator's error, and nothing has
    /// changed. Otherwise the allocator is left alone.
    pub fn next_buffer<A: Allocator<B>>(&mut self, allocator: &mut A) -> (handed: Result<
        (usize, u8),
        A::Error,
    >)
        requires
            old(self).wf(),
        ensures
            final(self).wf(),
            match handed {
                Ok((slot, age)) => {
                    &&& slot == old(self)@.target()
                    &&& age == old(self)@.ages[slot as int]
                    &&& final(self)@ == old(self)@.acquired(slot as int)
                },
                Err(_) => final(self)@ == old(self)@,
            },
            old(self)@.allocated[old(self)@.target()] ==> handed is Ok,
            handed matches Ok((slot, _)) ==> slot != old(self)@.front() && final(self)@.front()
                == old(self)@.front(),
            forall|i: int|
                i != old(self)@.target() || old(self)@.allocated[i] || handed is Err
                    ==> final(self).buffer_spec(i) == old(self).buffer_spec(i),
            old(self)@.allocated[old(self)@.target()] ==> *final(allocator) == *old(allocator),
            !old(self)@.allocated[old(self)@.target()] ==> match handed {
                Ok((slot, _)) => final(self).buffer_spec(slot as int) matches Some(buffer)
                    && old(self)@.requested(
                    old(allocator),
                    final(allocator),
                    Ok::<B, A::Error>(buffer),
                ),
                Err(error) => old(self)@.requested(
                    old(allocator),
                    final(allocator),
                    Err::<B, A::Error>(error),
                ),
            },
    {
        let (slot, empty) = self.target();
        if empty {
            match allocator.create_buffer(
                self.width,
                self.height,
                self.fourcc,
                self.modifiers.as_slice(),
            ) {
                Ok(buffer) => Ok(self.hand_out(slot, Some(buffer))),
                Err(error) => Err(error),
            }
        } else {
            Ok(self.hand_out(slot, None))
        }
    }

    /// Says what queueing the buffer handed out amounts to: `Ok(Some(slot))`
    /// asks for a page flip to that slot, whose outcome goes to
    /// `flip_submitted`; `Ok(None)` means that no buffer was handed out and
    /// nothing is to be done; `AlreadySwapped` that a frame is pending.
    pub fn queue_buffer(&self) -> (flip: Result<Option<usize>, SwapBuffersError>)
        requires
            self.wf(),
        ensures
            match flip {
                Ok(slot) => self@.queue_spec() == Ok::<Option<int>, SwapBuffersError>(
                    index_view(slot),
                ),
                Err(error) => self@.queue_spec() == Err::<Option<int>, SwapBuffersError>(error),
            },
    {
        if self.pending.is_some() {
            Err(SwapBuffersError::AlreadySwapped)
        } else {
            Ok(self.next)
        }
    }

    /// Records how the page flip went that `queue_buffer` asked for. Where
    /// the kernel took it, the buffer handed out is pending; where not,
    /// nothing changes. The outcome is passed on.
    pub fn flip_submitted(&mut self, outcome: Result<(), SwapBuffersError>) -> (result: Result<
        (),
        SwapBuffersError,
    >)
        requires
            old(self).wf(),
        ensures
            final(self).wf(),
            result == outcome,
            outcome is Ok ==> final(self)@ == old(self)@.flipped(),
            outcome is Err ==> final(self)@ == old(self)@,
            forall|i: int| final(self).buffer_spec(i) == old(self).buffer_spec(i),
    {
        if outcome.is_err() || self.pending.is_some() {
            return outcome;
        }
        let ghost before = self@;
        match self.next {
            Some(shown) => {
                let mut i: usize = 0;
                while i < SLOT_CAP
                    invariant
                        i <= SLOT_CAP,
                        self.ages.len() == SLOT_CAP,
                        self.buffers.len() == SLOT_CAP,
                        self.buffers@ == old(self).buffers@,
                        shown < SLOT_CAP,
                        before.ages.len() == SLOT_CAP,
                        self@ == (SurfaceView { ages: self.ages@, ..before }),
                        forall|j: int| 0 <= j < i ==> self.ages@[j] == before.aged(shown as int)[j],
                        forall|j: int| i <= j < SLOT_CAP ==> self.ages@[j] == before.ages[j],
                    decreases SLOT_CAP - i,
                {
                    let age: u8 = self.ages[i];
                    if i == shown {
                        self.ages.set(i, 1);
                    } else if self.buffers[i].is_some() && 0 < age && age < 255 {
                        self.ages.set(i, age + 1);
                    }
                    i += 1;
                }
                self.pending = Some(shown);
                self.next = None;
                assert(self@.ages =~= before.aged(shown as int));
            },
            None => {},
        }
        outcome
    }

    /// Records the vertical blank: the pending buffer, if there is one, is
    /// on screen now, and the buffer it replaced is free.
    pub fn frame_submitted(&mut self)
        requires
            old(self).wf(),
        ensures
            final(self).wf(),
            final(self)@ == old(self)@.presented(),
            forall|i: int| final(self).buffer_spec(i) == old(self).buffer_spec(i),
    {
        match self.pending {
            Some(shown) => {
                self.current = shown;
                self.pending = None;
            },
            None => {},
        }
    }

    /// Forgets the age of every buffer and drops the buffers that are not
    /// in use: what they held is lost.
    pub fn reset_buffers(&mut self)
        requires
            old(self).wf(),
        ensures
            final(self).wf(),
            final(self)@ == old(self)@.reset(),
            forall|i: int|
                final(self).buffer_spec(i) == if old(self)@.in_use(i) {
                    old(self).buffer_spec(i)
                } else {
                    None
                },
    {
        let ghost before = self@;
        let mut i: usize = 0;
        while i < SLOT_CAP
            invariant
                i <= SLOT_CAP,
                self.ages.len() == SLOT_CAP,
                self.buffers.len() == SLOT_CAP,
                before.wf(),
                self@.current == before.current,
                self@.pending == before.pending,
                self@.next == before.next,
                self@.width == before.width,
                self@.height == before.height,
                self@.fourcc == before.fourcc,
                self@.modifiers == before.modifiers,
                before.ages.len() == SLOT_CAP,
                before.allocated.len() == SLOT_CAP,
                forall|j: int|
                    0 <= j < SLOT_CAP ==> #[trigger] self.buffers@[j] == if j >= i
                        || before.in_use(j) {
                        old(self).buffers@[j]
                    } else {
                        None
                    },
                forall|j: int| 0 <= j < i ==> self.ages@[j] == 0,
                forall|j: int| i <= j < SLOT_CAP ==> self.ages@[j] == before.ages[j],
                forall|j: int|
                    0 <= j < i ==> (#[trigger] self.buffers@[j] is Some) == (before.allocated[j]
                        && before.in_use(j)),
                forall|j: int|
                    i <= j < SLOT_CAP ==> (#[trigger] self.buffers@[j] is Some)
                        == before.allocated[j],
            decreases SLOT_CAP - i,
        {
            self.ages.set(i, 0);
            if i != self.current && self.pending != Some(i) && self.next != Some(i) {
                self.buffers.set(i, None);
            }
            i += 1;
        }
        assert(self@.ages =~= before.reset().ages);
        assert(self@.allocated =~= before.reset().allocated);
    }
}

} // verus!
