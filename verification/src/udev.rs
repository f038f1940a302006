//! The state of the backend: the live devices with their surfaces, the
//! outputs mapped for them, and the pointer images that were uploaded.

use vstd::prelude::*;
use crate::allocator::{Allocator, Buffer};
use crate::frame::{
    crtcs_distinct,
    surface_views,
    surfaces_wf,
    FrameKind,
    FrameStep,
    SurfaceData,
    SurfaceDataView,
};
use crate::layout::{
    ids_distinct,
    lemma_position_of_id,
    lemma_without_device,
    mappable,
    next_position_spec,
    position_of_id,
    reflowed,
    without_device,
    OutputLayout,
};
use crate::node::DeviceNode;
use crate::output::{connector_output_spec, LogicalOutput, LogicalOutputView, OutputId, Point};
use crate::pointer::{cached_texture, CachedImage, CursorFrame, PointerCache, TextureId};
use crate::scanner::ScanResult;
use crate::scheduler::{FrameAction, SwapBuffersError};
use crate::session::{render_on_signal, restarts_rendering, SessionFd, SessionSignal};
use crate::surface::RenderSurface;

verus! {

/// Everything kept for one live device.
pub struct BackendData<A: Allocator<B>, B: Buffer> {
    node: DeviceNode,
    fd: SessionFd,
    gbm: A,
    registration_token: u64,
    surfaces: Vec<SurfaceData<B>>,
}

/// A live device as a mathematical value.
pub struct BackendView {
    pub node: DeviceNode,
    /// The descriptor the session opened for the device.
    pub fd: SessionFd,
    /// What the event loop knows the device's event source by.
    pub registration_token: u64,
    /// The surfaces of the device, in the order of their connectors.
    pub surfaces: Seq<SurfaceDataView>,
}

impl<A: Allocator<B>, B: Buffer> View for BackendData<A, B> {
    type V = BackendView;

    closed spec fn view(&self) -> BackendView {
        BackendView {
            node: self.node,
            fd: self.fd,
            registration_token: self.registration_token,
            surfaces: surface_views(self.surfaces@),
        }
    }
}

impl<A: Allocator<B>, B: Buffer> BackendData<A, B> {
    /// The node of the device.
    pub fn node(&self) -> (node: DeviceNode)
        ensures
            node == self@.node,
    {
        self.node
    }

    /// The descriptor the session opened for the device.
    pub fn fd(&self) -> (fd: SessionFd)
        ensures
            fd == self@.fd,
    {
        self.fd
    }

    /// What the event loop knows the device's event source by.
    pub fn registration_token(&self) -> (token: u64)
        ensures
            token == self@.registration_token,
    {
        self.registration_token
    }

    /// Number of surfaces of the device.
    pub fn surface_count(&self) -> (n: usize)
        ensures
            n == self@.surfaces.len(),
    {
        self.surfaces.len()
    }

    /// The allocator bound to the descriptor of the device: the one the
    /// device was added with, as the surfaces created since have left it.
    pub closed spec fn allocator_spec(&self) -> A {
        self.gbm
    }

    /// The allocator of the device.
    pub fn allocator(&self) -> (allocator: &A)
        ensures
            *allocator == self.allocator_spec(),
    {
        &self.gbm
    }

    /// The allocator of the device, for good.
    pub fn into_allocator(self) -> (allocator: A)
        ensures
            allocator == self.allocator_spec(),
    {
        self.gbm
    }
}

/// `allocators` without the one at `place`, if that is a place.
pub open spec fn without_allocator<A>(allocators: Seq<A>, place: Option<int>) -> Seq<A> {
    match place {
        Some(b) => allocators.remove(b),
        None => allocators,
    }
}

/// The place of the first of `backends` from `from` on that is the device
/// `node`.
pub open spec fn backend_at(backends: Seq<BackendView>, node: DeviceNode, from: int) -> Option<int>
    decreases backends.len() - from,
{
    if from < 0 || from >= backends.len() {
        None
    } else if backends[from].node == node {
        Some(from)
    } else {
        backend_at(backends, node, from + 1)
    }
}

/// The place of the first of `surfaces` from `from` on that `crtc` scans
/// out.
pub open spec fn surface_at(surfaces: Seq<SurfaceDataView>, crtc: u32, from: int) -> Option<int>
    decreases surfaces.len() - from,
{
    if from < 0 || from >= surfaces.len() {
        None
    } else if surfaces[from].binding.crtc == crtc {
        Some(from)
    } else {
        surface_at(surfaces, crtc, from + 1)
    }
}

/// No device is kept twice.
pub open spec fn nodes_distinct(backends: Seq<BackendView>) -> bool {
    forall|a: int, b: int|
        0 <= a < b < backends.len() ==> (#[trigger] backends[a]).node != (
        #[trigger] backends[b]).node
}

/// No CRTC of the device has two surfaces, and each surface belongs to the
/// device and keeps the rules of its swapchain.
pub open spec fn backend_wf(backend: BackendView) -> bool {
    surfaces_wf(backend.node, backend.surfaces)
}

/// Whether a live surface is scanned out by the device and CRTC of `id`.
pub open spec fn has_surface(backends: Seq<BackendView>, id: OutputId) -> bool {
    exists|b: int, i: int|
        0 <= b < backends.len() && 0 <= i < backends[b].surfaces.len() && backends[b].node
            == id.device_id && (#[trigger] backends[b].surfaces[i]).binding.crtc == id.crtc
}

/// The output that is registered for `surface` when it is mapped at
/// `position`.
pub open spec fn output_of(surface: SurfaceDataView, position: Point) -> LogicalOutputView {
    connector_output_spec(
        surface.binding.interface,
        surface.binding.interface_id,
        surface.binding.physical_size,
        surface.binding.mode,
        OutputId { device_id: surface.device_id, crtc: surface.binding.crtc },
        position,
    )
}

/// `outputs` after the outputs of `surfaces` were mapped, one after the
/// other, each to the right of everything mapped before it.
pub open spec fn with_outputs(
    outputs: Seq<LogicalOutputView>,
    surfaces: Seq<SurfaceDataView>,
) -> Seq<LogicalOutputView>
    decreases surfaces.len(),
{
    if surfaces.len() == 0 {
        outputs
    } else {
        let before = with_outputs(outputs, surfaces.drop_last());
        before.push(output_of(surfaces.last(), next_position_spec(before)))
    }
}

/// The nodes of `backends`, in order.
pub open spec fn nodes_of(backends: Seq<BackendView>) -> Seq<DeviceNode> {
    Seq::new(backends.len(), |b: int| backends[b].node)
}

/// The CRTCs of `surfaces`, in order.
pub open spec fn crtcs_of(surfaces: Seq<SurfaceDataView>) -> Seq<u32> {
    Seq::new(surfaces.len(), |i: int| surfaces[i].binding.crtc)
}

/// The two GPUs a frame is drawn with: buffers are allocated on one,
/// textures are sampled on the other.
#[derive(Clone, Copy, Debug, PartialEq, Eq, Hash, Structural)]
pub struct RendererNodes {
    pub allocation: DeviceNode,
    pub target: DeviceNode,
}

impl RendererNodes {
    /// Whether textures cross from one GPU to the other, so that the
    /// renderer has to import them.
    pub open spec fn imports_spec(self) -> bool {
        self.allocation != self.target
    }

    /// Whether textures cross from one GPU to the other.
    pub fn imports(&self) -> (crossing: bool)
        ensures
            crossing == self.imports_spec(),
    {
        self.allocation != self.target
    }
}

/// The state of the backend as a mathematical value.
pub struct UdevView {
    pub primary_gpu: DeviceNode,
    /// The live devices, in the order in which they were added.
    pub backends: Seq<BackendView>,
    pub pointer_images: Seq<CachedImage>,
    /// The mapped outputs, in the order in which they were mapped.
    pub outputs: Seq<LogicalOutputView>,
}

impl UdevView {
    /// The rules of the backend state: no device is kept twice and no CRTC
    /// of a device has two surfaces; every mapped output has a current
    /// mode and is scanned out by a live surface, and no two by the same.
    pub open spec fn wf(self) -> bool {
        &&& nodes_distinct(self.backends)
        &&& forall|b: int| 0 <= b < self.backends.len() ==> backend_wf(#[trigger] self.backends[b])
        &&& forall|i: int| 0 <= i < self.outputs.len() ==> mappable(#[trigger] self.outputs[i])
        &&& ids_distinct(self.outputs)
        &&& forall|i: int|
            0 <= i < self.outputs.len() ==> has_surface(
                self.backends,
                (#[trigger] self.outputs[i]).id,
            )
        &&& crate::pointer::frames_distinct(self.pointer_images)
    }

    /// What is kept for the surface of `crtc` on the device `node`.
    pub open spec fn surface(self, node: DeviceNode, crtc: u32) -> Option<SurfaceDataView> {
        match backend_at(self.backends, node, 0) {
            Some(b) => match surface_at(self.backends[b].surfaces, crtc, 0) {
                Some(i) => Some(self.backends[b].surfaces[i]),
                None => None,
            },
            None => None,
        }
    }

    /// The state with `surface` in place of what is kept for the surface of
    /// `crtc` on the device `node`.
    pub open spec fn with_surface(
        self,
        node: DeviceNode,
        crtc: u32,
        surface: SurfaceDataView,
    ) -> UdevView {
        match backend_at(self.backends, node, 0) {
            Some(b) => match surface_at(self.backends[b].surfaces, crtc, 0) {
                Some(i) => UdevView {
                    backends: self.backends.update(
                        b,
                        BackendView {
                            surfaces: self.backends[b].surfaces.update(i, surface),
                            ..self.backends[b]
                        },
                    ),
                    ..self
                },
                None => self,
            },
            None => self,
        }
    }

    /// The GPUs a frame of `kind` is drawn with for the surface of `crtc` on
    /// the device `node`. A frame of the scene is allocated on the primary
    /// GPU and drawn on the render node of the surface; a first frame is
    /// both allocated and drawn on that render node.
    pub open spec fn renderer_nodes(self, node: DeviceNode, crtc: u32, kind: FrameKind) -> Option<
        RendererNodes,
    > {
        match self.surface(node, crtc) {
            Some(surface) => Some(
                match kind {
                    FrameKind::Regular => RendererNodes {
                        allocation: self.primary_gpu,
                        target: surface.render_node,
                    },
                    FrameKind::Initial => RendererNodes {
                        allocation: surface.render_node,
                        target: surface.render_node,
                    },
                },
            ),
            None => None,
        }
    }

    /// The CRTCs to render on the device `node`: the one asked for if it
    /// has a surface, all that have one if none is asked for. None on a
    /// device that is not live.
    pub open spec fn render_targets(self, node: DeviceNode, crtc: Option<u32>) -> Seq<u32> {
        match backend_at(self.backends, node, 0) {
            Some(b) => match crtc {
                Some(c) => if surface_at(self.backends[b].surfaces, c, 0) is Some {
                    seq![c]
                } else {
                    Seq::empty()
                },
                None => crtcs_of(self.backends[b].surfaces),
            },
            None => Seq::empty(),
        }
    }

    /// The devices whose CRTCs are all rendered when `signal` arrives: every
    /// live device if the signal activates the session or a device, none
    /// otherwise.
    pub open spec fn restarted(self, signal: SessionSignal) -> Seq<DeviceNode> {
        if restarts_rendering(signal) {
            nodes_of(self.backends)
        } else {
            Seq::empty()
        }
    }

    /// The state after the device `node` was removed: its record is gone,
    /// its outputs are unmapped, and the outputs left are laid out anew.
    /// Nothing changes if the device is not live.
    pub open spec fn removed(self, node: DeviceNode) -> UdevView {
        match backend_at(self.backends, node, 0) {
            Some(b) => UdevView {
                backends: self.backends.remove(b),
                outputs: reflowed(without_device(self.outputs, node)),
                ..self
            },
            None => self,
        }
    }

    /// The state after the device of `backend` was added with the surfaces
    /// that its scan set up: an earlier record of the device is removed
    /// first; then the outputs of its surfaces are mapped, and its record
    /// is kept as the last.
    pub open spec fn added(self, backend: BackendView) -> UdevView {
        let base = self.removed(backend.node);
        UdevView {
            backends: base.backends.push(backend),
            outputs: with_outputs(base.outputs, backend.surfaces),
            ..base
        }
    }

    /// The state after a change of the device `node` was announced: its
    /// outputs are unmapped. Nothing changes if the device is not live.
    pub open spec fn changed(self, node: DeviceNode) -> UdevView {
        if backend_at(self.backends, node, 0) is Some {
            UdevView { outputs: without_device(self.outputs, node), ..self }
        } else {
            self
        }
    }

    /// The state after the device `node` was scanned again: `surfaces` take
    /// the place of its surfaces, their outputs the place of its outputs,
    /// and all outputs are laid out anew. Nothing changes if the device is
    /// not live.
    pub open spec fn rescanned(self, node: DeviceNode, surfaces: Seq<SurfaceDataView>) -> UdevView {
        match backend_at(self.backends, node, 0) {
            Some(b) => UdevView {
                backends: self.backends.update(b, BackendView { surfaces, ..self.backends[b] }),
                outputs: reflowed(with_outputs(without_device(self.outputs, node), surfaces)),
                ..self
            },
            None => self,
        }
    }
}

/// Where `backend_at` points, the first record of the device from `from`
/// on stands; where it points nowhere, there is none.
pub proof fn lemma_backend_at(backends: Seq<BackendView>, node: DeviceNode, from: int)
    requires
        0 <= from,
    ensures
        match backend_at(backends, node, from) {
            Some(b) => from <= b < backends.len() && backends[b].node == node && forall|j: int|
                from <= j < b ==> (#[trigger] backends[j]).node != node,
            None => forall|j: int| from <= j < backends.len() ==> (#[trigger] backends[j]).node
                != node,
        },
    decreases backends.len() - from,
{
    if from < backends.len() && backends[from].node != node {
        lemma_backend_at(backends, node, from + 1);
    }
}

/// Where `surface_at` points, the first surface of the CRTC from `from` on
/// stands; where it points nowhere, there is none.
pub proof fn lemma_surface_at(surfaces: Seq<SurfaceDataView>, crtc: u32, from: int)
    requires
        0 <= from,
    ensures
        match surface_at(surfaces, crtc, from) {
            Some(i) => from <= i < surfaces.len() && surfaces[i].binding.crtc == crtc
                && forall|j: int| from <= j < i ==> (#[trigger] surfaces[j]).binding.crtc != crtc,
            None => forall|j: int|
                from <= j < surfaces.len() ==> (#[trigger] surfaces[j]).binding.crtc != crtc,
        },
    decreases surfaces.len() - from,
{
    if from < surfaces.len() && surfaces[from].binding.crtc != crtc {
        lemma_surface_at(surfaces, crtc, from + 1);
    }
}

/// The outputs of `surfaces` are mapped behind the outputs that were there,
/// one for each surface, each mappable and scanned out by its surface.
pub proof fn lemma_with_outputs(outputs: Seq<LogicalOutputView>, surfaces: Seq<SurfaceDataView>)
    ensures
        with_outputs(outputs, surfaces).len() == outputs.len() + surfaces.len(),
        forall|i: int| 0 <= i < outputs.len() ==> with_outputs(outputs, surfaces)[i] == outputs[i],
        forall|j: int|
            0 <= j < surfaces.len() ==> {
                &&& (#[trigger] with_outputs(outputs, surfaces)[outputs.len() + j]).id == (OutputId {
                    device_id: surfaces[j].device_id,
                    crtc: surfaces[j].binding.crtc,
                })
                &&& mappable(with_outputs(outputs, surfaces)[outputs.len() + j])
            },
    decreases surfaces.len(),
{
    if surfaces.len() > 0 {
        lemma_with_outputs(outputs, surfaces.drop_last());
        let before = with_outputs(outputs, surfaces.drop_last());
        let all = with_outputs(outputs, surfaces);
        assert forall|j: int| 0 <= j < surfaces.len() implies {
            &&& (#[trigger] all[outputs.len() + j]).id == (OutputId {
                device_id: surfaces[j].device_id,
                crtc: surfaces[j].binding.crtc,
            })
            &&& mappable(all[outputs.len() + j])
        } by {
            if j < surfaces.len() - 1 {
                assert(all[outputs.len() + j] == before[outputs.len() + j]);
                assert(surfaces.drop_last()[j] == surfaces[j]);
            }
        }
    }
}

/// A device that is not live has no output mapped.
pub proof fn lemma_no_outputs_without_device(s: UdevView, node: DeviceNode)
    requires
        s.wf(),
        backend_at(s.backends, node, 0) is None,
    ensures
        forall|i: int| 0 <= i < s.outputs.len() ==> (#[trigger] s.outputs[i]).id.device_id != node,
        without_device(s.outputs, node) == s.outputs,
{
    lemma_backend_at(s.backends, node, 0);
    assert forall|i: int| 0 <= i < s.outputs.len() implies (#[trigger] s.outputs[i]).id.device_id
        != node by {
        assert(has_surface(s.backends, s.outputs[i].id));
    }
    lemma_without_device(s.outputs, node);
}

/// Laying outputs out anew keeps which they are, what they show and what
/// scans them out.
pub proof fn lemma_reflowed_keeps(outputs: Seq<LogicalOutputView>)
    requires
        forall|i: int| 0 <= i < outputs.len() ==> mappable(#[trigger] outputs[i]),
        ids_distinct(outputs),
    ensures
        reflowed(outputs).len() == outputs.len(),
        forall|i: int|
            0 <= i < outputs.len() ==> {
                &&& (#[trigger] reflowed(outputs)[i]).id == outputs[i].id
                &&& mappable(reflowed(outputs)[i])
            },
        ids_distinct(reflowed(outputs)),
{
    let after = reflowed(outputs);
    assert forall|i: int, j: int| 0 <= i < j < after.len() implies (#[trigger] after[i]).id != (
    #[trigger] after[j]).id by {
        assert(outputs[i].id != outputs[j].id);
    }
}

/// What is left without a device keeps the rules of the layout, and is
/// scanned out by other devices.
pub proof fn lemma_without_device_wf(outputs: Seq<LogicalOutputView>, node: DeviceNode)
    requires
        forall|i: int| 0 <= i < outputs.len() ==> mappable(#[trigger] outputs[i]),
        ids_distinct(outputs),
    ensures
        forall|i: int|
            0 <= i < without_device(outputs, node).len() ==> {
                &&& mappable(#[trigger] without_device(outputs, node)[i])
                &&& without_device(outputs, node)[i].id.device_id != node
                &&& outputs.contains(without_device(outputs, node)[i])
            },
        ids_distinct(without_device(outputs, node)),
{
    let rest = without_device(outputs, node);
    lemma_without_device(outputs, node);
    assert forall|i: int| 0 <= i < rest.len() implies mappable(#[trigger] rest[i]) by {
        assert(outputs.contains(rest[i]));
    }
    assert forall|a: int, b: int| 0 <= a < b < rest.len() implies (#[trigger] rest[a]).id != (
    #[trigger] rest[b]).id by {
        crate::layout::lemma_without_device_keeps_order(outputs, node, a, b);
    }
}

/// An output of another device keeps its surface when a device goes.
pub proof fn lemma_has_surface_remove(backends: Seq<BackendView>, b: int, id: OutputId)
    requires
        0 <= b < backends.len(),
        has_surface(backends, id),
        backends[b].node != id.device_id,
    ensures
        has_surface(backends.remove(b), id),
{
    let (w, i) = choose|w: int, i: int|
        0 <= w < backends.len() && 0 <= i < backends[w].surfaces.len() && backends[w].node
            == id.device_id && (#[trigger] backends[w].surfaces[i]).binding.crtc == id.crtc;
    let after = backends.remove(b);
    if w < b {
        assert(after[w].surfaces[i].binding.crtc == id.crtc);
    } else {
        assert(after[w - 1] == backends[w]);
        assert(after[w - 1].surfaces[i].binding.crtc == id.crtc);
    }
}

/// An output keeps its surface when a device comes.
pub proof fn lemma_has_surface_push(backends: Seq<BackendView>, backend: BackendView, id: OutputId)
    requires
        has_surface(backends, id),
    ensures
        has_surface(backends.push(backend), id),
{
    let (w, i) = choose|w: int, i: int|
        0 <= w < backends.len() && 0 <= i < backends[w].surfaces.len() && backends[w].node
            == id.device_id && (#[trigger] backends[w].surfaces[i]).binding.crtc == id.crtc;
    let after = backends.push(backend);
    assert(after[w] == backends[w]);
    assert(after[w].surfaces[i].binding.crtc == id.crtc);
}

/// An output of another device keeps its surface when the surfaces of a
/// device are replaced.
pub proof fn lemma_has_surface_update(
    backends: Seq<BackendView>,
    b: int,
    backend: BackendView,
    id: OutputId,
)
    requires
        0 <= b < backends.len(),
        has_surface(backends, id),
        backends[b].node != id.device_id,
    ensures
        has_surface(backends.update(b, backend), id),
{
    let (w, i) = choose|w: int, i: int|
        0 <= w < backends.len() && 0 <= i < backends[w].surfaces.len() && backends[w].node
            == id.device_id && (#[trigger] backends[w].surfaces[i]).binding.crtc == id.crtc;
    let after = backends.update(b, backend);
    assert(after[w] == backends[w]);
    assert(after[w].surfaces[i].binding.crtc == id.crtc);
}

/// Removing a device keeps the rules of the backend.
pub proof fn lemma_removed_wf(s: UdevView, node: DeviceNode)
    requires
        s.wf(),
    ensures
        s.removed(node).wf(),
        backend_at(s.removed(node).backends, node, 0) is None,
        forall|i: int|
            0 <= i < s.removed(node).outputs.len() ==> (
            #[trigger] s.removed(node).outputs[i]).id.device_id != node,
{
    lemma_backend_at(s.backends, node, 0);
    let after = s.removed(node);
    match backend_at(s.backends, node, 0) {
        Some(b) => {
            let rest = without_device(s.outputs, node);
            lemma_without_device_wf(s.outputs, node);
            lemma_reflowed_keeps(rest);
            assert forall|w: int| 0 <= w < after.backends.len() implies backend_wf(
                #[trigger] after.backends[w],
            ) && after.backends[w].node != node by {
                if w < b {
                    assert(after.backends[w] == s.backends[w]);
                } else {
                    assert(after.backends[w] == s.backends[w + 1]);
                }
            }
            assert forall|x: int, y: int| 0 <= x < y < after.backends.len() implies (
            #[trigger] after.backends[x]).node != (#[trigger] after.backends[y]).node by {
                let x0 = if x < b {
                    x
                } else {
                    x + 1
                };
                let y0 = if y < b {
                    y
                } else {
                    y + 1
                };
                assert(s.backends[x0].node != s.backends[y0].node);
            }
            assert forall|i: int| 0 <= i < after.outputs.len() implies has_surface(
                after.backends,
                (#[trigger] after.outputs[i]).id,
            ) && after.outputs[i].id.device_id != node by {
                assert(after.outputs[i].id == rest[i].id);
                assert(s.outputs.contains(rest[i]));
                let k = choose|k: int| 0 <= k < s.outputs.len() && s.outputs[k] == rest[i];
                assert(has_surface(s.backends, s.outputs[k].id));
                lemma_has_surface_remove(s.backends, b, rest[i].id);
            }
            lemma_backend_at(after.backends, node, 0);
        },
        None => {
            lemma_no_outputs_without_device(s, node);
        },
    }
}

/// Adding a device keeps the rules of the backend.
pub proof fn lemma_added_wf(s: UdevView, backend: BackendView)
    requires
        s.wf(),
        backend_wf(backend),
    ensures
        s.added(backend).wf(),
{
    let node = backend.node;
    let base = s.removed(node);
    lemma_removed_wf(s, node);
    lemma_backend_at(base.backends, node, 0);
    let after = s.added(backend);
    lemma_with_outputs(base.outputs, backend.surfaces);
    assert forall|w: int| 0 <= w < after.backends.len() implies backend_wf(
        #[trigger] after.backends[w],
    ) by {
        if w < base.backends.len() {
            assert(after.backends[w] == base.backends[w]);
        }
    }
    assert forall|x: int, y: int| 0 <= x < y < after.backends.len() implies (
    #[trigger] after.backends[x]).node != (#[trigger] after.backends[y]).node by {
        if y < base.backends.len() {
            assert(base.backends[x].node != base.backends[y].node);
        } else {
            assert(base.backends[x].node != node);
        }
    }
    assert forall|i: int| 0 <= i < after.outputs.len() implies mappable(
        #[trigger] after.outputs[i],
    ) && has_surface(after.backends, after.outputs[i].id) by {
        if i < base.outputs.len() {
            assert(after.outputs[i] == base.outputs[i]);
            lemma_has_surface_push(base.backends, backend, base.outputs[i].id);
        } else {
            let j = i - base.outputs.len();
            assert(after.outputs[base.outputs.len() + j].id.crtc == backend.surfaces[j].binding.crtc);
            assert(after.backends[base.backends.len() as int] == backend);
            assert(after.backends[base.backends.len() as int].surfaces[j].binding.crtc
                == after.outputs[i].id.crtc);
        }
    }
    assert forall|i: int, j: int| 0 <= i < j < after.outputs.len() implies (
    #[trigger] after.outputs[i]).id != (#[trigger] after.outputs[j]).id by {
        if j < base.outputs.len() {
            assert(base.outputs[i].id != base.outputs[j].id);
        } else if i < base.outputs.len() {
            assert(base.outputs[i].id.device_id != node);
            let jj = j - base.outputs.len();
            assert(after.outputs[base.outputs.len() + jj].id.device_id == node);
        } else {
            let ii = i - base.outputs.len();
            let jj = j - base.outputs.len();
            assert(after.outputs[base.outputs.len() + ii].id.crtc
                == backend.surfaces[ii].binding.crtc);
            assert(after.outputs[base.outputs.len() + jj].id.crtc
                == backend.surfaces[jj].binding.crtc);
        }
    }
}

/// Unmapping the outputs of a device keeps the rules of the backend.
pub proof fn lemma_changed_wf(s: UdevView, node: DeviceNode)
    requires
        s.wf(),
    ensures
        s.changed(node).wf(),
{
    if backend_at(s.backends, node, 0) is Some {
        let after = s.changed(node);
        lemma_without_device_wf(s.outputs, node);
        assert forall|i: int| 0 <= i < after.outputs.len() implies has_surface(
            after.backends,
            (#[trigger] after.outputs[i]).id,
        ) by {
            assert(s.outputs.contains(after.outputs[i]));
            let k = choose|k: int| 0 <= k < s.outputs.len() && s.outputs[k] == after.outputs[i];
            assert(has_surface(s.backends, s.outputs[k].id));
        }
    }
}

/// Scanning a device again keeps the rules of the backend.
pub proof fn lemma_rescanned_wf(s: UdevView, node: DeviceNode, surfaces: Seq<SurfaceDataView>)
    requires
        s.wf(),
        surfaces_wf(node, surfaces),
    ensures
        s.rescanned(node, surfaces).wf(),
{
    lemma_backend_at(s.backends, node, 0);
    match backend_at(s.backends, node, 0) {
        Some(b) => {
            let after = s.rescanned(node, surfaces);
            let rest = without_device(s.outputs, node);
            let grown = with_outputs(rest, surfaces);
            lemma_without_device_wf(s.outputs, node);
            lemma_with_outputs(rest, surfaces);
            assert forall|i: int, j: int| 0 <= i < j < grown.len() implies (#[trigger] grown[i]).id
                != (#[trigger] grown[j]).id by {
                if j < rest.len() {
                    assert(rest[i].id != rest[j].id);
                } else if i < rest.len() {
                    assert(rest[i].id.device_id != node);
                    let jj = j - rest.len();
                    assert(grown[rest.len() + jj].id.device_id == node);
                } else {
                    let ii = i - rest.len();
                    let jj = j - rest.len();
                    assert(grown[rest.len() + ii].id.crtc == surfaces[ii].binding.crtc);
                    assert(grown[rest.len() + jj].id.crtc == surfaces[jj].binding.crtc);
                }
            }
            assert forall|i: int| 0 <= i < grown.len() implies mappable(#[trigger] grown[i]) by {
                if i >= rest.len() {
                    let ii = i - rest.len();
                    assert(mappable(grown[rest.len() + ii]));
                } else {
                    assert(grown[i] == rest[i]);
                }
            }
            lemma_reflowed_keeps(grown);
            assert forall|w: int| 0 <= w < after.backends.len() implies backend_wf(
                #[trigger] after.backends[w],
            ) by {
                if w != b {
                    assert(after.backends[w] == s.backends[w]);
                }
            }
            assert forall|x: int, y: int| 0 <= x < y < after.backends.len() implies (
            #[trigger] after.backends[x]).node != (#[trigger] after.backends[y]).node by {
                assert(s.backends[x].node != s.backends[y].node);
            }
            assert forall|i: int| 0 <= i < after.outputs.len() implies has_surface(
                after.backends,
                (#[trigger] after.outputs[i]).id,
            ) by {
                assert(after.outputs[i].id == grown[i].id);
                if i < rest.len() {
                    assert(s.outputs.contains(rest[i]));
                    let k = choose|k: int| 0 <= k < s.outputs.len() && s.outputs[k] == rest[i];
                    assert(has_surface(s.backends, s.outputs[k].id));
                    lemma_has_surface_update(s.backends, b, after.backends[b], rest[i].id);
                } else {
                    let j = i - rest.len();
                    assert(grown[rest.len() + j].id.crtc == surfaces[j].binding.crtc);
                    assert(after.backends[b].surfaces[j].binding.crtc == after.outputs[i].id.crtc);
                }
            }
        },
        None => {},
    }
}

/// The rules of the backend are kept when what is kept for a surface
/// changes, as long as the surface stays with its device and CRTC and its
/// swapchain keeps its own rules.
pub proof fn lemma_with_surface_wf(s: UdevView, node: DeviceNode, crtc: u32, after: SurfaceDataView)
    requires
        s.wf(),
        after.surface.wf(),
        s.surface(node, crtc) matches Some(before) && before.binding == after.binding
            && before.device_id == after.device_id,
    ensures
        s.with_surface(node, crtc, after).wf(),
{
    lemma_backend_at(s.backends, node, 0);
    let b = backend_at(s.backends, node, 0).unwrap();
    lemma_surface_at(s.backends[b].surfaces, crtc, 0);
    let i = surface_at(s.backends[b].surfaces, crtc, 0).unwrap();
    let t = s.with_surface(node, crtc, after);
    assert(backend_wf(s.backends[b]));
    assert forall|w: int| 0 <= w < t.backends.len() implies backend_wf(#[trigger] t.backends[w]) by {
        if w != b {
            assert(t.backends[w] == s.backends[w]);
        } else {
            let old_surfaces = s.backends[b].surfaces;
            let new_surfaces = t.backends[b].surfaces;
            assert forall|x: int, y: int| 0 <= x < y < new_surfaces.len() implies (
            #[trigger] new_surfaces[x]).binding.crtc != (#[trigger] new_surfaces[y]).binding.crtc by {
                assert(old_surfaces[x].binding.crtc != old_surfaces[y].binding.crtc);
            }
            assert forall|x: int| 0 <= x < new_surfaces.len() implies {
                &&& (#[trigger] new_surfaces[x]).device_id == t.backends[b].node
                &&& new_surfaces[x].surface.wf()
            } by {
                if x != i {
                    assert(new_surfaces[x] == old_surfaces[x]);
                }
            }
        }
    }
    assert forall|x: int, y: int| 0 <= x < y < t.backends.len() implies (
    #[trigger] t.backends[x]).node != (#[trigger] t.backends[y]).node by {
        assert(s.backends[x].node != s.backends[y].node);
    }
    assert forall|k: int| 0 <= k < t.outputs.len() implies has_surface(
        t.backends,
        (#[trigger] t.outputs[k]).id,
    ) by {
        let id = s.outputs[k].id;
        assert(has_surface(s.backends, id));
        let (w, j) = choose|w: int, j: int|
            0 <= w < s.backends.len() && 0 <= j < s.backends[w].surfaces.len()
                && s.backends[w].node == id.device_id && (
            #[trigger] s.backends[w].surfaces[j]).binding.crtc == id.crtc;
        assert(t.backends[w].surfaces[j].binding.crtc == id.crtc);
    }
}

/// Maps the outputs of the surfaces of the device `node`, none of whose
/// outputs is mapped yet.
fn map_outputs<B: Buffer>(layout: &mut OutputLayout, node: DeviceNode, surfaces: &Vec<SurfaceData<B>>)
    requires
        old(layout).wf(),
        forall|i: int|
            0 <= i < old(layout)@.len() ==> (#[trigger] old(layout)@[i]).id.device_id != node,
        surfaces_wf(node, surface_views(surfaces@)),
    ensures
        final(layout).wf(),
        final(layout)@ == with_outputs(old(layout)@, surface_views(surfaces@)),
{
    let ghost base = layout@;
    let ghost views = surface_views(surfaces@);
    let mut i: usize = 0;
    while i < surfaces.len()
        invariant
            i <= surfaces.len(),
            views == surface_views(surfaces@),
            layout.wf(),
            layout@ == with_outputs(base, views.take(i as int)),
            forall|k: int| 0 <= k < base.len() ==> (#[trigger] base[k]).id.device_id != node,
            crtcs_distinct(views),
            forall|k: int| 0 <= k < views.len() ==> (#[trigger] views[k]).device_id == node,
        decreases surfaces.len() - i,
    {
        let ghost mapped_so_far = layout@;
        let binding = surfaces[i].binding();
        let position = layout.next_position();
        let id = OutputId { device_id: surfaces[i].device_id(), crtc: binding.crtc };
        let output = LogicalOutput::for_connector(
            binding.interface,
            binding.interface_id,
            binding.physical_size,
            binding.mode,
            id,
            position,
        );
        proof {
            let done = views.take(i as int);
            assert(views[i as int] == surfaces@[i as int]@);
            assert(output@ == output_of(views[i as int], next_position_spec(mapped_so_far)));
            lemma_with_outputs(base, done);
            lemma_position_of_id(mapped_so_far, id, 0);
            assert forall|k: int| 0 <= k < mapped_so_far.len() implies (
            #[trigger] mapped_so_far[k]).id != id by {
                if k < base.len() {
                    assert(mapped_so_far[k] == base[k]);
                } else {
                    let j = k - base.len();
                    assert(mapped_so_far[base.len() + j].id.crtc == done[j].binding.crtc);
                    assert(done[j] == views[j]);
                    assert(views[j].binding.crtc != views[i as int].binding.crtc);
                }
            }
            assert(views.take(i as int + 1).drop_last() =~= done);
            assert(views.take(i as int + 1).last() == views[i as int]);
        }
        let done = layout.map_output(output);
        i += 1;
    }
    assert(views.take(i as int) =~= views);
}

/// The state of the backend.
pub struct UdevData<A: Allocator<B>, B: Buffer> {
    primary_gpu: DeviceNode,
    backends: Vec<BackendData<A, B>>,
    pointer_images: PointerCache,
    layout: OutputLayout,
}

impl<A: Allocator<B>, B: Buffer> View for UdevData<A, B> {
    type V = UdevView;

    closed spec fn view(&self) -> UdevView {
        UdevView {
            primary_gpu: self.primary_gpu,
            backends: Seq::new(self.backends@.len(), |b: int| self.backends@[b]@),
            pointer_images: self.pointer_images@,
            outputs: self.layout@,
        }
    }
}

impl<A: Allocator<B>, B: Buffer> UdevData<A, B> {
    /// The state keeps the rules of the backend.
    pub open spec fn wf(&self) -> bool {
        self@.wf()
    }

    /// The allocators of the live devices, each at the place of its device.
    pub closed spec fn allocators(&self) -> Seq<A> {
        Seq::new(self.backends@.len(), |b: int| self.backends@[b].gbm)
    }

    /// Every live device has its allocator.
    pub proof fn lemma_allocator_of_each_device(&self)
        ensures
            self.allocators().len() == self@.backends.len(),
    {
    }

    /// The state of a backend without devices, with `primary_gpu` as the
    /// GPU that client buffers are imported on.
    pub fn new(primary_gpu: DeviceNode) -> (data: UdevData<A, B>)
        ensures
            data.wf(),
            data@ == (UdevView {
                primary_gpu,
                backends: Seq::empty(),
                pointer_images: Seq::empty(),
                outputs: Seq::empty(),
            }),
            data.allocators() == Seq::<A>::empty(),
    {
        let data = UdevData {
            primary_gpu,
            backends: Vec::new(),
            pointer_images: PointerCache::new(),
            layout: OutputLayout::new(),
        };
        assert(data@.backends =~= Seq::empty());
        assert(data.allocators() =~= Seq::<A>::empty());
        data
    }

    /// The primary GPU.
    pub fn primary_gpu(&self) -> (node: DeviceNode)
        ensures
            node == self@.primary_gpu,
    {
        self.primary_gpu
    }

    /// The nodes a client buffer is imported between ahead of its first
    /// use: from the primary GPU, onto the primary GPU.
    pub fn early_import(&self) -> (nodes: (Option<DeviceNode>, DeviceNode))
        ensures
            nodes == (Some(self@.primary_gpu), self@.primary_gpu),
    {
        (Some(self.primary_gpu), self.primary_gpu)
    }

    /// The mapped outputs.
    pub fn layout(&self) -> (layout: &OutputLayout)
        ensures
            layout@ == self@.outputs,
    {
        &self.layout
    }

    /// Number of live devices.
    pub fn device_count(&self) -> (n: usize)
        ensures
            n == self@.backends.len(),
    {
        self.backends.len()
    }

    /// The live devices, in the order in which they were added.
    pub fn nodes(&self) -> (nodes: Vec<DeviceNode>)
        ensures
            nodes@ == nodes_of(self@.backends),
    {
        let mut nodes: Vec<DeviceNode> = Vec::new();
        let mut b: usize = 0;
        while b < self.backends.len()
            invariant
                b <= self.backends.len(),
                nodes@ == nodes_of(self@.backends).take(b as int),
            decreases self.backends.len() - b,
        {
            assert(self@.backends[b as int] == self.backends@[b as int]@);
            nodes.push(self.backends[b].node);
            b += 1;
            assert(nodes@ =~= nodes_of(self@.backends).take(b as int));
        }
        assert(nodes@ =~= nodes_of(self@.backends));
        nodes
    }

    /// The devices to render every CRTC of when the session sends `signal`:
    /// every live device when the session or a device is activated, none
    /// otherwise.
    pub fn restart(&self, signal: SessionSignal) -> (nodes: Vec<DeviceNode>)
        ensures
            nodes@ == self@.restarted(signal),
    {
        if render_on_signal(signal) {
            self.nodes()
        } else {
            Vec::new()
        }
    }

    /// The place of the device `node` among the live devices.
    fn find_backend(&self, node: DeviceNode) -> (place: Option<usize>)
        ensures
            match place {
                Some(b) => backend_at(self@.backends, node, 0) == Some(b as int) && b
                    < self.backends.len(),
                None => backend_at(self@.backends, node, 0) is None,
            },
    {
        proof {
            lemma_backend_at(self@.backends, node, 0);
        }
        let mut b: usize = 0;
        while b < self.backends.len()
            invariant
                b <= self.backends.len(),
                backend_at(self@.backends, node, 0) == backend_at(self@.backends, node, b as int),
            decreases self.backends.len() - b,
        {
            assert(self@.backends[b as int] == self.backends@[b as int]@);
            if self.backends[b].node == node {
                return Some(b);
            }
            b += 1;
        }
        None
    }

    /// The place of the surface of `crtc` among the surfaces of the device
    /// at place `b`.
    fn find_surface(&self, b: usize, crtc: u32) -> (place: Option<usize>)
        requires
            b < self@.backends.len(),
        ensures
            match place {
                Some(i) => surface_at(self@.backends[b as int].surfaces, crtc, 0) == Some(i as int)
                    && i < self.backends@[b as int].surfaces.len(),
                None => surface_at(self@.backends[b as int].surfaces, crtc, 0) is None,
            },
    {
        let ghost surfaces = self@.backends[b as int].surfaces;
        proof {
            lemma_surface_at(surfaces, crtc, 0);
            assert(self@.backends[b as int] == self.backends@[b as int]@);
        }
        let mut i: usize = 0;
        while i < self.backends[b].surfaces.len()
            invariant
                b < self.backends.len(),
                surfaces == surface_views(self.backends@[b as int].surfaces@),
                i <= self.backends@[b as int].surfaces.len(),
                surface_at(surfaces, crtc, 0) == surface_at(surfaces, crtc, i as int),
            decreases self.backends@[b as int].surfaces.len() - i,
        {
            if self.backends[b].surfaces[i].crtc() == crtc {
                return Some(i);
            }
            i += 1;
        }
        None
    }

    /// What is kept for the device `node`.
    pub fn backend(&self, node: DeviceNode) -> (backend: Option<&BackendData<A, B>>)
        ensures
            match backend {
                Some(found) => backend_at(self@.backends, node, 0) matches Some(b) && found@
                    == self@.backends[b] && found.allocator_spec() == self.allocators()[b],
                None => backend_at(self@.backends, node, 0) is None,
            },
    {
        match self.find_backend(node) {
            Some(b) => {
                assert(self@.backends[b as int] == self.backends@[b as int]@);
                Some(&self.backends[b])
            },
            None => None,
        }
    }

    /// What is kept for the surface of `crtc` on the device `node`.
    pub fn surface(&self, node: DeviceNode, crtc: u32) -> (surface: Option<&SurfaceData<B>>)
        ensures
            match surface {
                Some(s) => self@.surface(node, crtc) == Some(s@),
                None => self@.surface(node, crtc) is None,
            },
    {
        match self.find_backend(node) {
            Some(b) => match self.find_surface(b, crtc) {
                Some(i) => {
                    assert(self@.backends[b as int] == self.backends@[b as int]@);
                    Some(&self.backends[b].surfaces[i])
                },
                None => None,
            },
            None => None,
        }
    }

    /// The GPUs to draw a frame of `kind` with for the surface of `crtc` on
    /// the device `node`, if there is such a surface.
    pub fn renderer(&self, node: DeviceNode, crtc: u32, kind: FrameKind) -> (nodes: Option<
        RendererNodes,
    >)
        ensures
            nodes == self@.renderer_nodes(node, crtc, kind),
    {
        match self.surface(node, crtc) {
            Some(surface) => {
                let target = surface.render_node();
                Some(
                    match kind {
                        FrameKind::Regular => RendererNodes { allocation: self.primary_gpu, target },
                        FrameKind::Initial => RendererNodes { allocation: target, target },
                    },
                )
            },
            None => None,
        }
    }

    /// The CRTCs to render on the device `node`: `crtc` if it is given and
    /// has a surface, every CRTC with a surface if none is given. On a
    /// device that is not live there is nothing to render.
    pub fn render(&self, node: DeviceNode, crtc: Option<u32>) -> (targets: Vec<u32>)
        ensures
            targets@ == self@.render_targets(node, crtc),
    {
        let mut targets: Vec<u32> = Vec::new();
        match self.find_backend(node) {
            Some(b) => {
                assert(self@.backends[b as int] == self.backends@[b as int]@);
                match crtc {
                    Some(c) => {
                        if self.find_surface(b, c).is_some() {
                            targets.push(c);
                            assert(targets@ =~= seq![c]);
                        }
                    },
                    None => {
                        let mut i: usize = 0;
                        while i < self.backends[b].surfaces.len()
                            invariant
                                b < self.backends.len(),
                                i <= self.backends@[b as int].surfaces.len(),
                                targets@ == crtcs_of(
                                    surface_views(self.backends@[b as int].surfaces@),
                                ).take(i as int),
                            decreases self.backends@[b as int].surfaces.len() - i,
                        {
                            targets.push(self.backends[b].surfaces[i].crtc());
                            i += 1;
                            assert(targets@ =~= crtcs_of(
                                surface_views(self.backends@[b as int].surfaces@),
                            ).take(i as int));
                        }
                        assert(targets@ =~= crtcs_of(
                            surface_views(self.backends@[b as int].surfaces@),
                        ));
                    },
                }
            },
            None => {},
        }
        targets
    }

    /// Removes the device `node`: drops its surfaces, unmaps its outputs
    /// and lays the outputs left out anew. Returns its record, for the
    /// caller to detach its event source and close it, in that order; the
    /// surfaces are gone from the record by then. Nothing happens if the
    /// device is not live.
    pub fn device_removed(&mut self, node: DeviceNode) -> (removed: Option<BackendData<A, B>>)
        requires
            old(self).wf(),
        ensures
            final(self).wf(),
            final(self)@ == old(self)@.removed(node),
            match removed {
                Some(backend) => backend_at(old(self)@.backends, node, 0) matches Some(b)
                    && backend@ == (BackendView {
                    surfaces: Seq::empty(),
                    ..old(self)@.backends[b]
                }) && backend.allocator_spec() == old(self).allocators()[b],
                None => backend_at(old(self)@.backends, node, 0) is None,
            },
            final(self).allocators() == without_allocator(
                old(self).allocators(),
                backend_at(old(self)@.backends, node, 0),
            ),
    {
        let ghost before = self@;
        match self.find_backend(node) {
            Some(b) => {
                let mut backend = self.backends.remove(b);
                assert(backend@ == before.backends[b as int]);
                backend.surfaces.clear();
                self.layout.unmap_device(node);
                self.layout.reflow();
                proof {
                    lemma_removed_wf(before, node);
                    assert(self@.backends =~= before.backends.remove(b as int));
                    assert(backend@.surfaces =~= Seq::empty());
                    assert(self.allocators() =~= old(self).allocators().remove(b as int));
                }
                Some(backend)
            },
            None => None,
        }
    }

    /// Adds the device that `result` is the scan of, opened by the
    /// session as `fd`, with `gbm` as its allocator and `registration_token`
    /// for its event source. The outputs of its surfaces are mapped, each to
    /// the right of everything mapped before it. Where the device is live
    /// already, its earlier record is removed first and returned, as
    /// `device_removed` does.
    pub fn device_added(
        &mut self,
        fd: SessionFd,
        gbm: A,
        registration_token: u64,
        result: ScanResult<B>,
    ) -> (replaced: Option<BackendData<A, B>>)
        requires
            old(self).wf(),
            result.wf(),
        ensures
            final(self).wf(),
            final(self)@ == old(self)@.added(
                BackendView {
                    node: result.node_spec(),
                    fd,
                    registration_token,
                    surfaces: result.surfaces_spec(),
                },
            ),
            match replaced {
                Some(backend) => backend_at(old(self)@.backends, result.node_spec(), 0) matches Some(
                    b,
                ) && backend@ == (BackendView {
                    surfaces: Seq::empty(),
                    ..old(self)@.backends[b]
                }) && backend.allocator_spec() == old(self).allocators()[b],
                None => backend_at(old(self)@.backends, result.node_spec(), 0) is None,
            },
            final(self).allocators() == without_allocator(
                old(self).allocators(),
                backend_at(old(self)@.backends, result.node_spec(), 0),
            ).push(gbm),
    {
        let ghost before = self@;
        let node = result.node();
        let ghost added = BackendView {
            node,
            fd,
            registration_token,
            surfaces: result.surfaces_spec(),
        };
        let replaced = self.device_removed(node);
        proof {
            lemma_removed_wf(before, node);
            lemma_added_wf(before, added);
        }
        let ghost base = self@;
        let surfaces = result.into_surfaces();
        map_outputs(&mut self.layout, node, &surfaces);
        let backend = BackendData { node, fd, gbm, registration_token, surfaces };
        assert(backend@ == added);
        let ghost kept = self.allocators();
        self.backends.push(backend);
        assert(self@.backends =~= base.backends.push(added));
        assert(self.allocators() =~= kept.push(gbm));
        replaced
    }

    /// Takes note that the device `node` changed: unmaps its outputs, ahead
    /// of the scan that will map them anew. Returns whether the device is
    /// live and so is to be scanned again.
    pub fn device_changed(&mut self, node: DeviceNode) -> (live: bool)
        requires
            old(self).wf(),
        ensures
            final(self).wf(),
            final(self)@ == old(self)@.changed(node),
            live == (backend_at(old(self)@.backends, node, 0) is Some),
            final(self).allocators() == old(self).allocators(),
    {
        proof {
            lemma_changed_wf(self@, node);
        }
        match self.find_backend(node) {
            Some(_) => {
                self.layout.unmap_device(node);
                true
            },
            None => false,
        }
    }

    /// Creates the swapchain of a CRTC of the device `node` with the
    /// device's allocator. `None` if the device is not live; else what
    /// creating the surface gave. No allocator but that of the device is
    /// touched.
    pub fn create_surface(
        &mut self,
        node: DeviceNode,
        width: u32,
        height: u32,
        fourcc: drm_fourcc::DrmFourcc,
        modifiers: Vec<drm_fourcc::DrmModifier>,
    ) -> (created: Option<Result<RenderSurface<B>, A::Error>>)
        requires
            old(self).wf(),
        ensures
            final(self).wf(),
            final(self)@ == old(self)@,
            match backend_at(old(self)@.backends, node, 0) {
                Some(b) => {
                    &&& created matches Some(made) && RenderSurface::created_by(
                        made,
                        &old(self).allocators()[b],
                        &final(self).allocators()[b],
                        width,
                        height,
                        fourcc,
                        modifiers@,
                    )
                    &&& final(self).allocators() == old(self).allocators().update(
                        b,
                        final(self).allocators()[b],
                    )
                },
                None => created is None && final(self).allocators() == old(self).allocators(),
            },
    {
        let ghost before = self@;
        match self.find_backend(node) {
            Some(b) => {
                let created = RenderSurface::new(
                    &mut self.backends[b].gbm,
                    width,
                    height,
                    fourcc,
                    modifiers,
                );
                assert(self@.backends =~= before.backends);
                assert(self.allocators() =~= old(self).allocators().update(
                    b as int,
                    self.allocators()[b as int],
                ));
                Some(created)
            },
            None => None,
        }
    }

    /// Takes over what the new scan of a device set up: the surfaces of
    /// `result` replace the surfaces of its device, their outputs are mapped
    /// in place of the outputs of the device, and all outputs are laid out
    /// anew. Returns whether the device is live; nothing happens if it is
    /// not.
    pub fn device_rescanned(&mut self, result: ScanResult<B>) -> (live: bool)
        requires
            old(self).wf(),
            result.wf(),
        ensures
            final(self).wf(),
            final(self)@ == old(self)@.rescanned(result.node_spec(), result.surfaces_spec()),
            live == (backend_at(old(self)@.backends, result.node_spec(), 0) is Some),
            final(self).allocators() == old(self).allocators(),
    {
        let ghost before = self@;
        let node = result.node();
        let ghost views = result.surfaces_spec();
        proof {
            lemma_rescanned_wf(before, node, views);
            lemma_without_device_wf(before.outputs, node);
        }
        match self.find_backend(node) {
            Some(b) => {
                let surfaces = result.into_surfaces();
                self.layout.unmap_device(node);
                map_outputs(&mut self.layout, node, &surfaces);
                proof {
                    let grown = with_outputs(without_device(before.outputs, node), views);
                    lemma_with_outputs(without_device(before.outputs, node), views);
                    assert(self.layout@ == grown);
                }
                self.layout.reflow();
                self.backends[b].surfaces = surfaces;
                assert(self@.backends =~= before.backends.update(
                    b as int,
                    BackendView { surfaces: views, ..before.backends[b as int] },
                ));
                true
            },
            None => false,
        }
    }

    /// Begins a pass of `kind` for the surface of `crtc` on the device
    /// `node`. Returns the step to take, and the error of the device's
    /// allocator where a buffer was needed and could not be had. Without
    /// such a surface the pass is over at once and nothing is scheduled.
    /// Only the allocator of the device is asked, and only where a buffer
    /// is needed.
    pub fn frame_begin(&mut self, node: DeviceNode, crtc: u32, kind: FrameKind) -> (begun: (
        FrameStep,
        Option<A::Error>,
    ))
        requires
            old(self).wf(),
        ensures
            final(self).wf(),
            match old(self)@.surface(node, crtc) {
                Some(surface) => {
                    let has_output = position_of_id(
                        old(self)@.outputs,
                        OutputId { device_id: node, crtc },
                        0,
                    ) is Some;
                    &&& final(self)@ == old(self)@.with_surface(
                        node,
                        crtc,
                        surface.begun(kind, has_output, begun.1 is Some).0,
                    )
                    &&& begun.0@ == surface.begun(kind, has_output, begun.1 is Some).1
                    &&& begun.1 is Some ==> surface.needs_allocation(kind, has_output)
                    &&& backend_at(old(self)@.backends, node, 0) matches Some(b) && surface.asked::<
                        A,
                        B,
                    >(
                        kind,
                        has_output,
                        &old(self).allocators()[b],
                        &final(self).allocators()[b],
                        begun.1,
                    ) && final(self).allocators() == old(self).allocators().update(
                        b,
                        final(self).allocators()[b],
                    )
                },
                None => final(self)@ == old(self)@ && begun.0 == FrameStep::Done(FrameAction::Wait)
                    && begun.1 is None && final(self).allocators() == old(self).allocators(),
            },
    {
        let ghost before = self@;
        match self.find_backend(node) {
            Some(b) => match self.find_surface(b, crtc) {
                Some(i) => {
                    let has_output = self.layout.find(OutputId { device_id: node, crtc }).is_some();
                    proof {
                        assert(before.backends[b as int] == self.backends@[b as int]@);
                        assert(before.backends[b as int].surfaces[i as int]
                            == self.backends@[b as int].surfaces@[i as int]@);
                        assert(backend_wf(before.backends[b as int]));
                    }
                    let backend = &mut self.backends[b];
                    let begun = backend.surfaces[i].frame_begin(&mut backend.gbm, kind, has_output);
                    proof {
                        let after = self.backends@[b as int].surfaces@[i as int]@;
                        lemma_with_surface_wf(before, node, crtc, after);
                        assert(self@.backends[b as int].surfaces
                            =~= before.backends[b as int].surfaces.update(i as int, after));
                        assert(self@.backends =~= before.with_surface(node, crtc, after).backends);
                        assert(self.allocators() =~= old(self).allocators().update(
                            b as int,
                            self.allocators()[b as int],
                        ));
                    }
                    begun
                },
                None => (FrameStep::Done(FrameAction::Wait), None),
            },
            None => (FrameStep::Done(FrameAction::Wait), None),
        }
    }

    /// Goes on with a pass of `kind` for the surface of `crtc` on the
    /// device `node`, after the caller drew with `outcome`: `Ok(true)` if a
    /// frame was drawn, `Ok(false)` if there was nothing to draw. Without
    /// such a surface the pass is over and nothing is scheduled.
    pub fn frame_drawn(
        &mut self,
        node: DeviceNode,
        crtc: u32,
        kind: FrameKind,
        outcome: Result<bool, SwapBuffersError>,
    ) -> (step: FrameStep)
        requires
            old(self).wf(),
        ensures
            final(self).wf(),
            match old(self)@.surface(node, crtc) {
                Some(surface) => {
                    &&& final(self)@ == old(self)@.with_surface(
                        node,
                        crtc,
                        surface.drawn(kind, outcome).0,
                    )
                    &&& step@ == surface.drawn(kind, outcome).1
                },
                None => final(self)@ == old(self)@ && step == FrameStep::Done(FrameAction::Wait),
            },
            final(self).allocators() == old(self).allocators(),
    {
        let ghost before = self@;
        match self.find_backend(node) {
            Some(b) => match self.find_surface(b, crtc) {
                Some(i) => {
                    proof {
                        assert(before.backends[b as int] == self.backends@[b as int]@);
                        assert(before.backends[b as int].surfaces[i as int]
                            == self.backends@[b as int].surfaces@[i as int]@);
                        assert(backend_wf(before.backends[b as int]));
                    }
                    let step = self.backends[b].surfaces[i].frame_drawn(kind, outcome);
                    proof {
                        let after = self.backends@[b as int].surfaces@[i as int]@;
                        lemma_with_surface_wf(before, node, crtc, after);
                        assert(self@.backends[b as int].surfaces
                            =~= before.backends[b as int].surfaces.update(i as int, after));
                        assert(self@.backends =~= before.with_surface(node, crtc, after).backends);
                    }
                    step
                },
                None => FrameStep::Done(FrameAction::Wait),
            },
            None => FrameStep::Done(FrameAction::Wait),
        }
    }

    /// Ends a pass of `kind` for the surface of `crtc` on the device `node`
    /// with the kernel's answer to the page flip, and says whether and when
    /// the CRTC is rendered again. Without such a surface nothing is
    /// scheduled.
    pub fn frame_flipped(
        &mut self,
        node: DeviceNode,
        crtc: u32,
        kind: FrameKind,
        outcome: Result<(), SwapBuffersError>,
    ) -> (action: FrameAction)
        requires
            old(self).wf(),
        ensures
            final(self).wf(),
            match old(self)@.surface(node, crtc) {
                Some(surface) => {
                    &&& final(self)@ == old(self)@.with_surface(
                        node,
                        crtc,
                        surface.flipped(kind, outcome).0,
                    )
                    &&& action == surface.flipped(kind, outcome).1
                },
                None => final(self)@ == old(self)@ && action == FrameAction::Wait,
            },
            final(self).allocators() == old(self).allocators(),
    {
        let ghost before = self@;
        match self.find_backend(node) {
            Some(b) => match self.find_surface(b, crtc) {
                Some(i) => {
                    proof {
                        assert(before.backends[b as int] == self.backends@[b as int]@);
                        assert(before.backends[b as int].surfaces[i as int]
                            == self.backends@[b as int].surfaces@[i as int]@);
                        assert(backend_wf(before.backends[b as int]));
                    }
                    let action = self.backends[b].surfaces[i].frame_flipped(kind, outcome);
                    proof {
                        let after = self.backends@[b as int].surfaces@[i as int]@;
                        lemma_with_surface_wf(before, node, crtc, after);
                        assert(self@.backends[b as int].surfaces
                            =~= before.backends[b as int].surfaces.update(i as int, after));
                        assert(self@.backends =~= before.with_surface(node, crtc, after).backends);
                    }
                    action
                },
                None => FrameAction::Wait,
            },
            None => FrameAction::Wait,
        }
    }

    /// Forgets the age of every buffer of the surface that scans `output`
    /// out. Returns whether there is such a surface.
    pub fn reset_buffers(&mut self, output: OutputId) -> (done: bool)
        requires
            old(self).wf(),
        ensures
            final(self).wf(),
            match old(self)@.surface(output.device_id, output.crtc) {
                Some(surface) => done && final(self)@ == old(self)@.with_surface(
                    output.device_id,
                    output.crtc,
                    SurfaceDataView { surface: surface.surface.reset(), ..surface },
                ),
                None => !done && final(self)@ == old(self)@,
            },
            final(self).allocators() == old(self).allocators(),
    {
        let ghost before = self@;
        let node = output.device_id;
        let crtc = output.crtc;
        match self.find_backend(node) {
            Some(b) => match self.find_surface(b, crtc) {
                Some(i) => {
                    proof {
                        assert(before.backends[b as int] == self.backends@[b as int]@);
                        assert(before.backends[b as int].surfaces[i as int]
                            == self.backends@[b as int].surfaces@[i as int]@);
                        assert(backend_wf(before.backends[b as int]));
                    }
                    self.backends[b].surfaces[i].reset_buffers();
                    proof {
                        let after = self.backends@[b as int].surfaces@[i as int]@;
                        crate::surface::lemma_front_is_last_queued(
                            before.backends[b as int].surfaces[i as int].surface,
                        );
                        lemma_with_surface_wf(before, node, crtc, after);
                        assert(self@.backends[b as int].surfaces
                            =~= before.backends[b as int].surfaces.update(i as int, after));
                        assert(self@.backends =~= before.with_surface(node, crtc, after).backends);
                    }
                    true
                },
                None => false,
            },
            None => false,
        }
    }

    /// The texture cached for the pointer image `frame`, if it was uploaded
    /// before.
    pub fn pointer_texture(&self, frame: &CursorFrame) -> (texture: Option<TextureId>)
        ensures
            texture == cached_texture(self@.pointer_images, frame@),
    {
        self.pointer_images.lookup(frame)
    }

    /// Caches `texture` for the pointer image `frame` unless one is cached
    /// for it already, and returns the texture that is cached for it now.
    pub fn cache_pointer_texture(&mut self, frame: CursorFrame, texture: TextureId) -> (cached:
        TextureId)
        requires
            old(self).wf(),
        ensures
            final(self).wf(),
            match cached_texture(old(self)@.pointer_images, frame@) {
                Some(known) => cached == known && final(self)@ == old(self)@,
                None => cached == texture && final(self)@ == (UdevView {
                    pointer_images: old(self)@.pointer_images.push(
                        CachedImage { frame: frame@, texture },
                    ),
                    ..old(self)@
                }),
            },
            final(self).allocators() == old(self).allocators(),
    {
        self.pointer_images.insert(frame, texture)
    }
}

} // verus!
