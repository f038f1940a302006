//! The connector scan: which connector of a device gets which CRTC.
//!
//! Finding the best assignment is hard in general, so the scan is greedy.
//! It takes the connected connectors in the order the device reports them
//! and gives each the first CRTC its encoders permit that no earlier
//! connector of the scan holds. Whether a CRTC can really be set up only
//! the kernel and the allocator can tell, so the scan proposes one attempt
//! at a time and is told how it went.

use vstd::prelude::*;
use crate::allocator::Buffer;
use crate::connector::{
    candidate_crtcs,
    candidate_crtcs_spec,
    ConnectorInfo,
    ConnectorState,
    DeviceResources,
    Mode,
};
use crate::frame::{
    crtcs_distinct,
    holds_crtc,
    surface_views,
    surfaces_wf,
    Binding,
    SurfaceData,
    SurfaceDataView,
};
use crate::node::DeviceNode;
use crate::output::{physical_size, physical_size_spec};
use crate::scheduler::FrameState;
use crate::surface::{RenderSurface, SurfaceView};

verus! {

/// A CRTC to set up for a connector, in a mode.
#[derive(Clone, Copy, Debug, PartialEq, Eq, Hash, Structural)]
pub struct Attempt {
    pub connector: u32,
    pub crtc: u32,
    pub mode: Mode,
}

/// A connector takes part in the scan when something is plugged into it and
/// it reports a mode to drive it in.
pub open spec fn eligible(connector: ConnectorInfo) -> bool {
    connector.state == ConnectorState::Connected && connector.modes@.len() > 0
}

/// The first place from `from` on in `candidates` of a CRTC that none of
/// `bound` holds; the length of `candidates` if there is none.
pub open spec fn first_free(candidates: Seq<u32>, bound: Seq<SurfaceDataView>, from: int) -> int
    decreases candidates.len() - from,
{
    if from < 0 || from >= candidates.len() {
        candidates.len() as int
    } else if !holds_crtc(bound, candidates[from]) {
        from
    } else {
        first_free(candidates, bound, from + 1)
    }
}

/// What a scan works on: a device and what it reports.
pub struct ScanInput {
    pub node: DeviceNode,
    /// The GPU that draws for this device, if one could be resolved.
    pub render_node: Option<DeviceNode>,
    pub crtcs: Seq<u32>,
    pub connectors: Seq<ConnectorInfo>,
}

impl ScanInput {
    /// The CRTCs that may drive the connector at place `c`, in the order
    /// in which they are tried.
    pub open spec fn candidates(self, c: int) -> Seq<u32> {
        candidate_crtcs_spec(self.connectors[c].encoders@, self.crtcs)
    }

    /// The binding of the connector at place `c` to its candidate at
    /// place `k`, in the connector's first mode.
    pub open spec fn binding_at(self, c: int, k: int) -> Binding {
        Binding {
            connector: self.connectors[c].handle,
            interface: self.connectors[c].interface,
            interface_id: self.connectors[c].interface_id,
            physical_size: physical_size_spec(self.connectors[c].size),
            crtc: self.candidates(c)[k],
            mode: self.connectors[c].modes@[0],
        }
    }

    /// Where the next attempt is found when `bound` is set up already,
    /// looking from connector `c` and its candidate `k` on: at the first
    /// eligible connector that has a candidate left which no binding holds,
    /// at the first such candidate. Past the last connector if there is
    /// none.
    pub open spec fn seek_from(self, bound: Seq<SurfaceDataView>, c: int, k: int) -> (int, int)
        decreases self.connectors.len() - c,
    {
        if c < 0 || c >= self.connectors.len() {
            (self.connectors.len() as int, 0)
        } else if eligible(self.connectors[c]) && first_free(self.candidates(c), bound, k)
            < self.candidates(c).len() {
            (c, first_free(self.candidates(c), bound, k))
        } else {
            self.seek_from(bound, c + 1, 0)
        }
    }

    /// Whether `surface` is the outcome of an attempt of this scan: it
    /// belongs to the scanned device and its render node, and binds an
    /// eligible connector to one of its candidates in its first mode.
    pub open spec fn justified(self, surface: SurfaceDataView) -> bool {
        &&& surface.device_id == self.node
        &&& self.render_node == Some(surface.render_node)
        &&& surface.surface.wf()
        &&& exists|c: int, k: int|
            0 <= c < self.connectors.len() && 0 <= k < self.candidates(c).len() && eligible(
                self.connectors[c],
            ) && #[trigger] self.binding_at(c, k) == surface.binding
    }
}

/// A scan in progress, as a mathematical value.
pub struct ScanView {
    pub input: ScanInput,
    /// The connector the scan is at.
    pub connector: int,
    /// The place among that connector's candidates the scan is at.
    pub candidate: int,
    /// Whether an attempt was proposed and its outcome is awaited.
    pub pending: bool,
    /// What was set up so far.
    pub bound: Seq<SurfaceDataView>,
}

impl ScanView {
    /// Whether the scan is over: every connector was dealt with.
    pub open spec fn done(self) -> bool {
        !self.pending && self.connector >= self.input.connectors.len()
    }

    /// The scan after it looked for the next attempt. With an attempt
    /// pending nothing moves.
    pub open spec fn seek(self) -> ScanView {
        if self.pending {
            self
        } else {
            let (c, k) = self.input.seek_from(self.bound, self.connector, self.candidate);
            ScanView {
                connector: c,
                candidate: k,
                pending: c < self.input.connectors.len(),
                ..self
            }
        }
    }

    /// The attempt whose outcome is awaited.
    pub open spec fn attempt(self) -> Option<Attempt> {
        if self.pending {
            let b = self.input.binding_at(self.connector, self.candidate);
            Some(Attempt { connector: b.connector, crtc: b.crtc, mode: b.mode })
        } else {
            None
        }
    }

    /// What is kept for the pending attempt once `surface` was created for
    /// it.
    pub open spec fn new_surface(self, surface: SurfaceView) -> SurfaceDataView {
        SurfaceDataView {
            device_id: self.input.node,
            render_node: self.input.render_node.unwrap(),
            binding: self.input.binding_at(self.connector, self.candidate),
            surface,
            state: FrameState::Idle,
            initial_retries: 0,
        }
    }

    /// The scan after the pending attempt worked: the connector holds the
    /// CRTC, and the scan turns to the next connector.
    pub open spec fn succeeded(self, surface: SurfaceView) -> ScanView {
        if self.pending {
            ScanView {
                connector: self.connector + 1,
                candidate: 0,
                pending: false,
                bound: self.bound.push(self.new_surface(surface)),
                ..self
            }
        } else {
            self
        }
    }

    /// The scan after the pending attempt failed: the CRTC stays free, and
    /// the scan turns to the connector's next candidate.
    pub open spec fn failed(self) -> ScanView {
        if self.pending {
            ScanView { candidate: self.candidate + 1, pending: false, ..self }
        } else {
            self
        }
    }

    /// What a scan of `resources` starts from. Without a render node it is
    /// over before it starts.
    pub open spec fn start(
        node: DeviceNode,
        resources: DeviceResources,
        render_node: Option<DeviceNode>,
    ) -> ScanView {
        ScanView {
            input: ScanInput {
                node,
                render_node,
                crtcs: resources.crtcs@,
                connectors: resources.connectors@,
            },
            connector: if render_node is Some {
                0
            } else {
                resources.connectors@.len() as int
            },
            candidate: 0,
            pending: false,
            bound: Seq::empty(),
        }
    }

    /// The rules of a scan: no CRTC is bound twice, every binding is the
    /// outcome of an attempt, and a pending attempt is for a CRTC that is
    /// still free.
    pub open spec fn wf(self) -> bool {
        &&& 0 <= self.connector <= self.input.connectors.len()
        &&& 0 <= self.candidate
        &&& crtcs_distinct(self.bound)
        &&& forall|i: int|
            0 <= i < self.bound.len() ==> self.input.justified(#[trigger] self.bound[i])
        &&& (self.input.render_node is None ==> self.connector == self.input.connectors.len()
            && !self.pending)
        &&& (self.pending ==> {
            &&& self.connector < self.input.connectors.len()
            &&& eligible(self.input.connectors[self.connector])
            &&& self.candidate < self.input.candidates(self.connector).len()
            &&& !holds_crtc(self.bound, self.input.candidates(self.connector)[self.candidate])
        })
    }
}

/// Where `first_free` points, a free candidate stands, and none stands
/// between `from` and there.
pub proof fn lemma_first_free(candidates: Seq<u32>, bound: Seq<SurfaceDataView>, from: int)
    requires
        0 <= from,
    ensures
        from <= first_free(candidates, bound, from) || first_free(candidates, bound, from)
            == candidates.len(),
        first_free(candidates, bound, from) <= candidates.len(),
        first_free(candidates, bound, from) < candidates.len() ==> !holds_crtc(
            bound,
            candidates[first_free(candidates, bound, from)],
        ),
        forall|k: int|
            from <= k < first_free(candidates, bound, from) ==> holds_crtc(
                bound,
                #[trigger] candidates[k],
            ),
    decreases candidates.len() - from,
{
    if from < candidates.len() && holds_crtc(bound, candidates[from]) {
        lemma_first_free(candidates, bound, from + 1);
    }
}

/// Where the scan looks for the next attempt it finds either an eligible
/// connector with a free candidate, or the end.
pub proof fn lemma_seek_from(input: ScanInput, bound: Seq<SurfaceDataView>, c: int, k: int)
    requires
        0 <= c,
        0 <= k,
    ensures
        ({
            let (c2, k2) = input.seek_from(bound, c, k);
            &&& c <= c2 || c2 == input.connectors.len()
            &&& c2 <= input.connectors.len()
            &&& 0 <= k2
            &&& c2 < input.connectors.len() ==> {
                &&& eligible(input.connectors[c2])
                &&& k2 < input.candidates(c2).len()
                &&& !holds_crtc(bound, input.candidates(c2)[k2])
            }
        }),
    decreases input.connectors.len() - c,
{
    if c < input.connectors.len() {
        lemma_first_free(input.candidates(c), bound, k);
        if !(eligible(input.connectors[c]) && first_free(input.candidates(c), bound, k)
            < input.candidates(c).len()) {
            lemma_seek_from(input, bound, c + 1, 0);
        }
    }
}

/// Every step of a scan keeps its rules.
pub proof fn lemma_steps_keep_wf(v: ScanView, surface: SurfaceView)
    requires
        v.wf(),
        surface.wf(),
    ensures
        v.seek().wf(),
        v.succeeded(surface).wf(),
        v.failed().wf(),
{
    lemma_seek_from(v.input, v.bound, v.connector, v.candidate);
    if v.pending {
        let after = v.succeeded(surface);
        let added = v.new_surface(surface);
        assert(v.input.binding_at(v.connector, v.candidate) == added.binding);
        assert(v.input.justified(added));
        assert forall|i: int, j: int| 0 <= i < j < after.bound.len() implies (
        #[trigger] after.bound[i]).binding.crtc != (#[trigger] after.bound[j]).binding.crtc by {
            if j == v.bound.len() {
                assert(v.bound[i].binding.crtc != added.binding.crtc);
            } else {
                assert(v.bound[i].binding.crtc != v.bound[j].binding.crtc);
            }
        }
    }
}

/// A device without a connected connector yields no attempt: its scan is
/// over at once and binds nothing.
pub proof fn lemma_nothing_connected(
    node: DeviceNode,
    resources: DeviceResources,
    render_node: Option<DeviceNode>,
)
    requires
        forall|c: int|
            0 <= c < resources.connectors@.len() ==> (#[trigger] resources.connectors@[c]).state
                != ConnectorState::Connected,
    ensures
        ScanView::start(node, resources, render_node).seek().done(),
        ScanView::start(node, resources, render_node).seek().bound.len() == 0,
{
    let v = ScanView::start(node, resources, render_node);
    lemma_seek_skips(v.input, v.bound, v.connector, 0);
}

proof fn lemma_seek_skips(input: ScanInput, bound: Seq<SurfaceDataView>, c: int, k: int)
    requires
        0 <= c,
        forall|j: int|
            0 <= j < input.connectors.len() ==> !eligible(#[trigger] input.connectors[j]),
    ensures
        input.seek_from(bound, c, k).0 == input.connectors.len(),
    decreases input.connectors.len() - c,
{
    if c < input.connectors.len() {
        lemma_seek_skips(input, bound, c + 1, 0);
    }
}

/// A device without a render node yields no attempt either.
pub proof fn lemma_no_render_node(node: DeviceNode, resources: DeviceResources)
    ensures
        ScanView::start(node, resources, None).seek().done(),
        ScanView::start(node, resources, None).seek().bound.len() == 0,
{
}

/// The scan of one device.
pub struct Scanner<B: Buffer> {
    node: DeviceNode,
    render_node: Option<DeviceNode>,
    resources: DeviceResources,
    connector: usize,
    candidate: usize,
    pending: bool,
    bound: Vec<SurfaceData<B>>,
}

impl<B: Buffer> View for Scanner<B> {
    type V = ScanView;

    closed spec fn view(&self) -> ScanView {
        ScanView {
            input: ScanInput {
                node: self.node,
                render_node: self.render_node,
                crtcs: self.resources.crtcs@,
                connectors: self.resources.connectors@,
            },
            connector: self.connector as int,
            candidate: self.candidate as int,
            pending: self.pending,
            bound: surface_views(self.bound@),
        }
    }
}

/// The outcome of a scan: the surfaces of one device.
pub struct ScanResult<B: Buffer> {
    node: DeviceNode,
    surfaces: Vec<SurfaceData<B>>,
}

impl<B: Buffer> ScanResult<B> {
    /// The device that was scanned.
    pub closed spec fn node_spec(&self) -> DeviceNode {
        self.node
    }

    /// The surfaces that were set up, in the order of their connectors.
    pub closed spec fn surfaces_spec(&self) -> Seq<SurfaceDataView> {
        surface_views(self.surfaces@)
    }

    /// No CRTC drives two connectors, and every surface belongs to the
    /// scanned device and keeps the rules of its swapchain.
    pub open spec fn wf(&self) -> bool {
        surfaces_wf(self.node_spec(), self.surfaces_spec())
    }

    /// The device that was scanned.
    pub fn node(&self) -> (node: DeviceNode)
        ensures
            node == self.node_spec(),
    {
        self.node
    }

    /// Hands out the surfaces that were set up.
    pub fn into_surfaces(self) -> (surfaces: Vec<SurfaceData<B>>)
        ensures
            surface_views(surfaces@) == self.surfaces_spec(),
    {
        self.surfaces
    }

    /// Number of surfaces that were set up.
    pub fn len(&self) -> (n: usize)
        ensures
            n == self.surfaces_spec().len(),
    {
        self.surfaces.len()
    }

    /// The `i`-th surface that was set up.
    pub fn get(&self, i: usize) -> (surface: Option<&SurfaceData<B>>)
        ensures
            i < self.surfaces_spec().len() ==> (surface matches Some(s) && s@
                == self.surfaces_spec()[i as int]),
            i >= self.surfaces_spec().len() ==> surface is None,
    {
        if i < self.surfaces.len() {
            Some(&self.surfaces[i])
        } else {
            None
        }
    }
}

impl<B: Buffer> Scanner<B> {
    /// The scanner keeps the rules of a scan.
    pub open spec fn wf(&self) -> bool {
        self@.wf()
    }

    /// Starts the scan of the device `node` with the resources it
    /// reports. `render_node` is the GPU that will draw for its
    /// surfaces; without one the scan yields nothing.
    pub fn new(node: DeviceNode, resources: DeviceResources, render_node: Option<DeviceNode>) -> (
        scanner: Scanner<B>
    )
        ensures
            scanner.wf(),
            scanner@ == ScanView::start(node, resources, render_node),
    {
        let connector: usize = if render_node.is_some() {
            0
        } else {
            resources.connectors.len()
        };
        let scanner = Scanner {
            node,
            render_node,
            resources,
            connector,
            candidate: 0,
            pending: false,
            bound: Vec::new(),
        };
        assert(scanner@.bound =~= Seq::empty());
        scanner
    }

    /// Whether one of the surfaces set up so far is scanned out by `crtc`.
    fn is_bound(&self, crtc: u32) -> (held: bool)
        ensures
            held == holds_crtc(self@.bound, crtc),
    {
        let mut i: usize = 0;
        while i < self.bound.len()
            invariant
                i <= self.bound.len(),
                forall|j: int| 0 <= j < i ==> (#[trigger] self@.bound[j]).binding.crtc != crtc,
            decreases self.bound.len() - i,
        {
            assert(self@.bound[i as int] == self.bound@[i as int]@);
            if self.bound[i].crtc() == crtc {
                return true;
            }
            i += 1;
        }
        false
    }

    /// The binding that the connector at place `c` and its candidate at
    /// place `k` make.
    fn binding_at(&self, c: usize, k: usize) -> (binding: Binding)
        requires
            c < self@.input.connectors.len(),
            k < self@.input.candidates(c as int).len(),
            eligible(self@.input.connectors[c as int]),
        ensures
            binding == self@.input.binding_at(c as int, k as int),
    {
        let info = &self.resources.connectors[c];
        let candidates = candidate_crtcs(&info.encoders, &self.resources.crtcs);
        Binding {
            connector: info.handle,
            interface: info.interface,
            interface_id: info.interface_id,
            physical_size: physical_size(info.size),
            crtc: candidates[k],
            mode: info.modes[0],
        }
    }

    /// The attempt whose outcome is awaited, if there is one.
    pub fn pending_attempt(&self) -> (attempt: Option<Attempt>)
        requires
            self.wf(),
        ensures
            attempt == self@.attempt(),
    {
        if self.pending {
            let b = self.binding_at(self.connector, self.candidate);
            Some(Attempt { connector: b.connector, crtc: b.crtc, mode: b.mode })
        } else {
            None
        }
    }

    /// Proposes the next attempt: for the first connected connector not yet
    /// dealt with, the first CRTC its encoders permit that no connector
    /// holds, in the connector's first mode. `None` when the scan is over.
    /// While the outcome of an attempt is awaited, that attempt is proposed
    /// again.
    pub fn next_attempt(&mut self) -> (attempt: Option<Attempt>)
        requires
            old(self).wf(),
        ensures
            final(self).wf(),
            final(self)@ == old(self)@.seek(),
            attempt == final(self)@.attempt(),
            attempt is None <==> final(self)@.done(),
    {
        if self.pending {
            return self.pending_attempt();
        }
        let ghost start = self@;
        proof {
            lemma_steps_keep_wf(start, SurfaceView::initial(0, 0, arbitrary(), Seq::empty()));
            lemma_seek_from(start.input, start.bound, start.connector, start.candidate);
        }
        while self.connector < self.resources.connectors.len()
            invariant
                !self.pending,
                !start.pending,
                start == old(self)@,
                start.seek().wf(),
                self@.input == start.input,
                self@.bound == start.bound,
                self.connector <= self.resources.connectors.len(),
                start.input.seek_from(start.bound, start.connector, start.candidate)
                    == start.input.seek_from(
                    start.bound,
                    self.connector as int,
                    self.candidate as int,
                ),
            decreases self.resources.connectors.len() - self.connector,
        {
            let c: usize = self.connector;
            let connected = match self.resources.connectors[c].state {
                ConnectorState::Connected => true,
                _ => false,
            };
            if connected && self.resources.connectors[c].modes.len() > 0 {
                let candidates = candidate_crtcs(
                    &self.resources.connectors[c].encoders,
                    &self.resources.crtcs,
                );
                let ghost from = self.candidate as int;
                let mut k: usize = self.candidate;
                while k < candidates.len()
                    invariant
                        !self.pending,
                        !start.pending,
                        start == old(self)@,
                        start.seek().wf(),
                        c == self.connector,
                        c < self.resources.connectors.len(),
                        eligible(start.input.connectors[c as int]),
                        candidates@ == start.input.candidates(c as int),
                        self@.input == start.input,
                        self@.bound == start.bound,
                        self.candidate == from,
                        from <= k,
                        start.input.seek_from(start.bound, start.connector, start.candidate)
                            == start.input.seek_from(start.bound, c as int, from),
                        first_free(candidates@, start.bound, from) == first_free(
                            candidates@,
                            start.bound,
                            k as int,
                        ),
                    decreases candidates.len() - k,
                {
                    if !self.is_bound(candidates[k]) {
                        self.candidate = k;
                        self.pending = true;
                        assert(self@ == start.seek());
                        return self.pending_attempt();
                    }
                    k += 1;
                }
            }
            self.connector = c + 1;
            self.candidate = 0;
        }
        self.candidate = 0;
        assert(self@ == start.seek());
        None
    }

    /// Reports that the pending attempt worked and hands over the surface
    /// that was created for it. Returns whether an attempt was pending;
    /// without one nothing is recorded.
    pub fn attempt_succeeded(&mut self, surface: RenderSurface<B>) -> (recorded: bool)
        requires
            old(self).wf(),
            surface.wf(),
        ensures
            final(self).wf(),
            recorded == old(self)@.pending,
            final(self)@ == old(self)@.succeeded(surface@),
    {
        if !self.pending {
            return false;
        }
        let ghost before = self@;
        proof {
            lemma_steps_keep_wf(before, surface@);
        }
        let render_node = match self.render_node {
            Some(node) => node,
            None => self.node,
        };
        let binding = self.binding_at(self.connector, self.candidate);
        let data = SurfaceData::new(self.node, render_node, binding, surface);
        assert(data@ == before.new_surface(surface@));
        self.bound.push(data);
        assert(self.connector < self.resources.connectors.len());
        self.connector = self.connector + 1;
        self.candidate = 0;
        self.pending = false;
        assert(self@.bound =~= before.bound.push(before.new_surface(surface@)));
        true
    }

    /// Reports that the pending attempt failed. Returns whether an attempt
    /// was pending.
    pub fn attempt_failed(&mut self) -> (recorded: bool)
        requires
            old(self).wf(),
        ensures
            final(self).wf(),
            recorded == old(self)@.pending,
            final(self)@ == old(self)@.failed(),
    {
        if !self.pending {
            return false;
        }
        proof {
            lemma_steps_keep_wf(self@, SurfaceView::initial(0, 0, arbitrary(), Seq::empty()));
        }
        let candidates = candidate_crtcs(
            &self.resources.connectors[self.connector].encoders,
            &self.resources.crtcs,
        );
        assert(self.candidate < candidates.len());
        self.candidate = self.candidate + 1;
        self.pending = false;
        true
    }

    /// Ends the scan and hands out what was set up.
    pub fn finish(self) -> (result: ScanResult<B>)
        requires
            self.wf(),
        ensures
            result.wf(),
            result.node_spec() == self@.input.node,
            result.surfaces_spec() == self@.bound,
    {
        let ghost v = self@;
        let result = ScanResult { node: self.node, surfaces: self.bound };
        assert forall|i: int| 0 <= i < result.surfaces_spec().len() implies {
            &&& (#[trigger] result.surfaces_spec()[i]).device_id == result.node_spec()
            &&& result.surfaces_spec()[i].surface.wf()
        } by {
            assert(v.input.justified(v.bound[i]));
        }
        result
    }
}

} // verus!
