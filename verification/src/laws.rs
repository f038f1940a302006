//! What holds of the backend state whatever happens to it.

use vstd::prelude::*;
use crate::frame::{surfaces_wf, SurfaceDataView};
use crate::layout::{
    lemma_without_device,
    mappable,
    next_position_spec,
    reflowed,
    total_width,
    without_device,
};
use crate::node::DeviceNode;
use crate::output::LogicalOutputView;
use crate::udev::{
    backend_at,
    backend_wf,
    lemma_backend_at,
    lemma_no_outputs_without_device,
    lemma_removed_wf,
    lemma_surface_at,
    lemma_with_outputs,
    lemma_without_device_wf,
    output_of,
    with_outputs,
    BackendView,
    UdevView,
};

verus! {

/// On one device, no CRTC is scanned out by two live surfaces: two
/// surfaces of the same device and CRTC are one and the same.
pub proof fn lemma_crtc_unique(s: UdevView, b1: int, i1: int, b2: int, i2: int)
    requires
        s.wf(),
        0 <= b1 < s.backends.len(),
        0 <= i1 < s.backends[b1].surfaces.len(),
        0 <= b2 < s.backends.len(),
        0 <= i2 < s.backends[b2].surfaces.len(),
        s.backends[b1].surfaces[i1].device_id == s.backends[b2].surfaces[i2].device_id,
        s.backends[b1].surfaces[i1].binding.crtc == s.backends[b2].surfaces[i2].binding.crtc,
    ensures
        b1 == b2,
        i1 == i2,
{
    assert(backend_wf(s.backends[b1]));
    assert(backend_wf(s.backends[b2]));
    if b1 != b2 {
        if b1 < b2 {
            assert(s.backends[b1].node != s.backends[b2].node);
        } else {
            assert(s.backends[b2].node != s.backends[b1].node);
        }
    }
    if i1 != i2 {
        let surfaces = s.backends[b1].surfaces;
        if i1 < i2 {
            assert(surfaces[i1].binding.crtc != surfaces[i2].binding.crtc);
        } else {
            assert(surfaces[i2].binding.crtc != surfaces[i1].binding.crtc);
        }
    }
}

/// Every mapped output is scanned out by a live surface: the device and
/// CRTC it is tagged with are found among the live surfaces.
pub proof fn lemma_output_has_surface(s: UdevView, i: int)
    requires
        s.wf(),
        0 <= i < s.outputs.len(),
    ensures
        s.surface(s.outputs[i].id.device_id, s.outputs[i].id.crtc) is Some,
        mappable(s.outputs[i]),
{
    let id = s.outputs[i].id;
    assert(crate::udev::has_surface(s.backends, id));
    let (w, k) = choose|w: int, k: int|
        0 <= w < s.backends.len() && 0 <= k < s.backends[w].surfaces.len() && s.backends[w].node
            == id.device_id && (#[trigger] s.backends[w].surfaces[k]).binding.crtc == id.crtc;
    lemma_backend_at(s.backends, id.device_id, 0);
    let b = backend_at(s.backends, id.device_id, 0).unwrap();
    if b != w {
        if b < w {
            assert(s.backends[b].node != s.backends[w].node);
        } else {
            assert(s.backends[w].node != s.backends[b].node);
        }
    }
    lemma_surface_at(s.backends[b].surfaces, id.crtc, 0);
}

/// Once a device is removed nothing is rendered on it: whatever CRTC is
/// asked for, there is nothing to render and no surface to begin a frame
/// for, and none of its outputs is mapped.
pub proof fn lemma_removed_device_is_silent(s: UdevView, node: DeviceNode, crtc: Option<u32>)
    requires
        s.wf(),
    ensures
        s.removed(node).render_targets(node, crtc) == Seq::<u32>::empty(),
        forall|c: u32| s.removed(node).surface(node, c) is None,
        forall|i: int|
            0 <= i < s.removed(node).outputs.len() ==> (
            #[trigger] s.removed(node).outputs[i]).id.device_id != node,
{
    lemma_removed_wf(s, node);
}

/// What is left of the outputs of a device and of others when the device's
/// are taken out again: the others.
pub proof fn lemma_without_device_with_outputs(
    outputs: Seq<LogicalOutputView>,
    surfaces: Seq<SurfaceDataView>,
    node: DeviceNode,
)
    requires
        forall|i: int| 0 <= i < outputs.len() ==> (#[trigger] outputs[i]).id.device_id != node,
        forall|j: int| 0 <= j < surfaces.len() ==> (#[trigger] surfaces[j]).device_id == node,
    ensures
        without_device(with_outputs(outputs, surfaces), node) == outputs,
    decreases surfaces.len(),
{
    if surfaces.len() == 0 {
        lemma_without_device(outputs, node);
    } else {
        let front = surfaces.drop_last();
        assert forall|j: int| 0 <= j < front.len() implies (#[trigger] front[j]).device_id
            == node by {
            assert(front[j] == surfaces[j]);
        }
        lemma_without_device_with_outputs(outputs, front, node);
        let before = with_outputs(outputs, front);
        let added = output_of(surfaces.last(), next_position_spec(before));
        assert(surfaces.last() == surfaces[surfaces.len() - 1]);
        assert(before.push(added).drop_last() =~= before);
    }
}

/// Adding a device and removing it again leaves the backend as it was,
/// but for the positions of the outputs, which are laid out anew.
pub proof fn lemma_add_remove_round_trip(s: UdevView, backend: BackendView)
    requires
        s.wf(),
        backend_wf(backend),
        backend_at(s.backends, backend.node, 0) is None,
    ensures
        s.added(backend).removed(backend.node) == (UdevView {
            outputs: reflowed(s.outputs),
            ..s
        }),
{
    let node = backend.node;
    let grown = s.added(backend);
    lemma_backend_at(s.backends, node, 0);
    lemma_backend_at(grown.backends, node, 0);
    let last = s.backends.len() as int;
    assert(grown.backends[last] == backend);
    assert forall|j: int| 0 <= j < last implies (#[trigger] grown.backends[j]).node != node by {
        assert(grown.backends[j] == s.backends[j]);
    }
    assert(backend_at(grown.backends, node, 0) == Some(last));
    assert(grown.backends.remove(last) =~= s.backends);
    lemma_no_outputs_without_device(s, node);
    lemma_without_device_with_outputs(s.outputs, backend.surfaces, node);
}

/// Two sequences of outputs that differ in positions at most.
pub open spec fn same_but_positions(a: Seq<LogicalOutputView>, b: Seq<LogicalOutputView>) -> bool {
    &&& a.len() == b.len()
    &&& forall|i: int|
        0 <= i < a.len() ==> (LogicalOutputView { position: (#[trigger] b[i]).position, ..a[i] })
            == b[i]
}

proof fn lemma_same_widths(a: Seq<LogicalOutputView>, b: Seq<LogicalOutputView>, n: int)
    requires
        same_but_positions(a, b),
        0 <= n <= a.len(),
    ensures
        total_width(a.take(n)) == total_width(b.take(n)),
    decreases n,
{
    if n > 0 {
        lemma_same_widths(a, b, n - 1);
        assert(a.take(n).drop_last() =~= a.take(n - 1));
        assert(b.take(n).drop_last() =~= b.take(n - 1));
        assert(a.take(n).last() == a[n - 1]);
        assert(b.take(n).last() == b[n - 1]);
    }
}

/// Where outputs are laid out anew, the positions they had do not matter.
pub proof fn lemma_reflow_ignores_positions(a: Seq<LogicalOutputView>, b: Seq<LogicalOutputView>)
    requires
        same_but_positions(a, b),
    ensures
        reflowed(a) == reflowed(b),
{
    assert forall|i: int| 0 <= i < a.len() implies reflowed(a)[i] == reflowed(b)[i] by {
        lemma_same_widths(a, b, i);
        assert(b[i] == b[i]);
    }
    assert(reflowed(a) =~= reflowed(b));
}

proof fn lemma_without_device_same(
    a: Seq<LogicalOutputView>,
    b: Seq<LogicalOutputView>,
    node: DeviceNode,
)
    requires
        same_but_positions(a, b),
    ensures
        same_but_positions(without_device(a, node), without_device(b, node)),
    decreases a.len(),
{
    if a.len() > 0 {
        let fa = a.drop_last();
        let fb = b.drop_last();
        assert forall|i: int| 0 <= i < fa.len() implies (LogicalOutputView {
            position: (#[trigger] fb[i]).position,
            ..fa[i]
        }) == fb[i] by {
            assert(b[i] == fb[i]);
        }
        lemma_without_device_same(fa, fb, node);
        assert(b[b.len() - 1] == b.last());
    }
}

proof fn lemma_with_outputs_same(
    a: Seq<LogicalOutputView>,
    b: Seq<LogicalOutputView>,
    surfaces: Seq<SurfaceDataView>,
)
    requires
        same_but_positions(a, b),
    ensures
        same_but_positions(with_outputs(a, surfaces), with_outputs(b, surfaces)),
    decreases surfaces.len(),
{
    if surfaces.len() > 0 {
        lemma_with_outputs_same(a, b, surfaces.drop_last());
        let xa = with_outputs(a, surfaces.drop_last());
        let xb = with_outputs(b, surfaces.drop_last());
        let ya = with_outputs(a, surfaces);
        let yb = with_outputs(b, surfaces);
        assert forall|i: int| 0 <= i < ya.len() implies (LogicalOutputView {
            position: (#[trigger] yb[i]).position,
            ..ya[i]
        }) == yb[i] by {
            if i < xa.len() {
                assert(xb[i] == yb[i]);
            }
        }
    }
}

/// Scanning a device again when nothing changed changes nothing: with the
/// same surfaces set up as the time before, the backend is as it was
/// after the time before.
pub proof fn lemma_device_changed_idempotent(
    s: UdevView,
    node: DeviceNode,
    surfaces: Seq<SurfaceDataView>,
)
    requires
        s.wf(),
        surfaces_wf(node, surfaces),
    ensures
        s.changed(node).rescanned(node, surfaces).changed(node).rescanned(node, surfaces)
            == s.changed(node).rescanned(node, surfaces),
{
    lemma_backend_at(s.backends, node, 0);
    match backend_at(s.backends, node, 0) {
        Some(b) => {
            let rest = without_device(s.outputs, node);
            lemma_without_device_wf(s.outputs, node);
            assert(without_device(rest, node) == rest) by {
                lemma_without_device(rest, node);
            }
            let once = s.changed(node).rescanned(node, surfaces);
            assert(once.outputs == reflowed(with_outputs(rest, surfaces)));
            lemma_backend_at(once.backends, node, 0);
            assert forall|j: int| 0 <= j < b implies (#[trigger] once.backends[j]).node != node by {
                assert(once.backends[j] == s.backends[j]);
            }
            assert(once.backends[b].node == node);
            assert(backend_at(once.backends, node, 0) == Some(b));
            let grown = with_outputs(rest, surfaces);
            lemma_with_outputs(rest, surfaces);
            // What the second scan starts from is what the first started from.
            assert(same_but_positions(grown, reflowed(grown)));
            lemma_without_device_same(grown, reflowed(grown), node);
            lemma_without_device_with_outputs(rest, surfaces, node);
            let rest2 = without_device(once.outputs, node);
            assert(same_but_positions(rest, rest2));
            assert(without_device(rest2, node) == rest2) by {
                lemma_without_device(rest2, node);
                assert forall|i: int| 0 <= i < rest2.len() implies (#[trigger] rest2[i]).id.device_id
                    != node by {
                    assert(rest2[i].id == rest[i].id);
                }
            }
            lemma_with_outputs_same(rest, rest2, surfaces);
            lemma_reflow_ignores_positions(grown, with_outputs(rest2, surfaces));
            let twice = once.changed(node).rescanned(node, surfaces);
            assert(twice.backends =~= once.backends);
        },
        None => {},
    }
}

} // verus!
