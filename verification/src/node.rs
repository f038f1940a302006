//! Device nodes and the choice of the primary GPU.

use vstd::prelude::*;

verus! {

/// A graphics device, identified by its kernel device number.
#[derive(Clone, Copy, Debug, PartialEq, Eq, Hash, Structural)]
pub struct DeviceNode {
    pub dev: u64,
}

impl DeviceNode {
    /// The node of the device with number `dev`.
    pub fn from_dev_id(dev: u64) -> (node: DeviceNode)
        ensures
            node == (DeviceNode { dev }),
    {
        DeviceNode { dev }
    }

    /// The device number this node was made from.
    pub fn dev_id(&self) -> (dev: u64)
        ensures
            dev == self.dev,
    {
        self.dev
    }
}

/// Two nodes are equal exactly when they come from the same device number.
pub proof fn lemma_node_identity(a: u64, b: u64)
    ensures
        (DeviceNode { dev: a } == DeviceNode { dev: b }) <==> a == b,
{
}

/// The first entry of `nodes` at or after position `from` that resolved.
pub open spec fn first_resolved_from(nodes: Seq<Option<DeviceNode>>, from: int) -> Option<
    DeviceNode,
>
    decreases nodes.len() - from,
{
    if from < 0 || from >= nodes.len() {
        None
    } else if nodes[from] is Some {
        nodes[from]
    } else {
        first_resolved_from(nodes, from + 1)
    }
}

/// The first entry of `nodes` that resolved, if any.
pub open spec fn first_resolved(nodes: Seq<Option<DeviceNode>>) -> Option<DeviceNode> {
    first_resolved_from(nodes, 0)
}

/// The primary GPU: the configured override when there is one, else the
/// render node of the seat's primary GPU, else the first enumerated GPU
/// that resolved.
pub open spec fn primary_gpu_spec(
    configured: Option<DeviceNode>,
    seat_render_node: Option<DeviceNode>,
    enumerated: Seq<Option<DeviceNode>>,
) -> Option<DeviceNode> {
    if configured is Some {
        configured
    } else if seat_render_node is Some {
        seat_render_node
    } else {
        first_resolved(enumerated)
    }
}

/// Chooses the primary GPU.
///
/// `configured` is the node of the device the environment names, if it names
/// one; `seat_render_node` the render node of the seat's primary GPU, if it
/// has one; `enumerated` every GPU of the seat in enumeration order, `None`
/// where its path did not resolve to a node. `None` means there is no GPU.
pub fn select_primary_gpu(
    configured: Option<DeviceNode>,
    seat_render_node: Option<DeviceNode>,
    enumerated: &Vec<Option<DeviceNode>>,
) -> (chosen: Option<DeviceNode>)
    ensures
        chosen == primary_gpu_spec(configured, seat_render_node, enumerated@),
{
    if configured.is_some() {
        return configured;
    }
    if seat_render_node.is_some() {
        return seat_render_node;
    }
    let mut i: usize = 0;
    while i < enumerated.len()
        invariant
            i <= enumerated.len(),
            configured is None,
            seat_render_node is None,
            first_resolved(enumerated@) == first_resolved_from(enumerated@, i as int),
        decreases enumerated.len() - i,
    {
        if enumerated[i].is_some() {
            return enumerated[i];
        }
        i += 1;
    }
    None
}

/// A configured override always wins, whatever the seat reports.
pub proof fn lemma_override_wins(
    configured: DeviceNode,
    seat_render_node: Option<DeviceNode>,
    enumerated: Seq<Option<DeviceNode>>,
)
    ensures
        primary_gpu_spec(Some(configured), seat_render_node, enumerated) == Some(configured),
{
}

} // verus!
