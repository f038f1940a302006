//! The outputs mapped into the global layout, left to right.

use vstd::prelude::*;
use crate::node::DeviceNode;
use crate::output::{LogicalOutput, LogicalOutputView, OutputId, Point};

verus! {

/// Width of the area an output covers: that of its current mode.
pub open spec fn width_of(output: LogicalOutputView) -> int {
    match output.current_mode {
        Some(mode) => mode.width as int,
        None => 0,
    }
}

/// An output can be mapped when it has a current mode of a size that is
/// not negative.
pub open spec fn mappable(output: LogicalOutputView) -> bool {
    output.current_mode matches Some(mode) && mode.width >= 0 && mode.height >= 0
}

/// Sum of the widths of `outputs`.
pub open spec fn total_width(outputs: Seq<LogicalOutputView>) -> int
    decreases outputs.len(),
{
    if outputs.len() == 0 {
        0
    } else {
        total_width(outputs.drop_last()) + width_of(outputs.last())
    }
}

/// `v`, held at `i32::MAX` where it lies above.
pub open spec fn clamp_width(v: int) -> i32 {
    if v > i32::MAX {
        i32::MAX
    } else {
        v as i32
    }
}

/// Where an output is placed when `outputs` are already mapped: to the
/// right of them all, at the top.
pub open spec fn next_position_spec(outputs: Seq<LogicalOutputView>) -> Point {
    Point { x: clamp_width(total_width(outputs)), y: 0 }
}

/// `outputs` without those that `node` scans out, the others in order.
pub open spec fn without_device(outputs: Seq<LogicalOutputView>, node: DeviceNode) -> Seq<
    LogicalOutputView,
>
    decreases outputs.len(),
{
    if outputs.len() == 0 {
        Seq::empty()
    } else if outputs.last().id.device_id == node {
        without_device(outputs.drop_last(), node)
    } else {
        without_device(outputs.drop_last(), node).push(outputs.last())
    }
}

/// `outputs` laid out anew from left to right: each keeps its place in the
/// sequence and everything but its position, which becomes the sum of the
/// widths before it.
pub open spec fn reflowed(outputs: Seq<LogicalOutputView>) -> Seq<LogicalOutputView> {
    Seq::new(
        outputs.len(),
        |i: int|
            LogicalOutputView { position: next_position_spec(outputs.take(i)), ..outputs[i] },
    )
}

/// The place of the first of `outputs` that `id` scans out.
pub open spec fn position_of_id(outputs: Seq<LogicalOutputView>, id: OutputId, from: int) -> Option<
    int,
>
    decreases outputs.len() - from,
{
    if from < 0 || from >= outputs.len() {
        None
    } else if outputs[from].id == id {
        Some(from)
    } else {
        position_of_id(outputs, id, from + 1)
    }
}

/// No two of `outputs` are scanned out by the same device and CRTC.
pub open spec fn ids_distinct(outputs: Seq<LogicalOutputView>) -> bool {
    forall|i: int, j: int|
        0 <= i < j < outputs.len() ==> (#[trigger] outputs[i]).id != (#[trigger] outputs[j]).id
}

/// `outputs` after `output` is mapped: it takes the place of the output with
/// its id where there is one, and the last place where there is none.
pub open spec fn mapped(outputs: Seq<LogicalOutputView>, output: LogicalOutputView) -> Seq<
    LogicalOutputView,
> {
    match position_of_id(outputs, output.id, 0) {
        Some(i) => outputs.update(i, output),
        None => outputs.push(output),
    }
}

/// Where `position_of_id` points, the first output from `from` on stands
/// that `id` scans out; where it points nowhere, there is none.
pub proof fn lemma_position_of_id(outputs: Seq<LogicalOutputView>, id: OutputId, from: int)
    requires
        0 <= from,
    ensures
        match position_of_id(outputs, id, from) {
            Some(i) => from <= i < outputs.len() && outputs[i].id == id && forall|j: int|
                from <= j < i ==> (#[trigger] outputs[j]).id != id,
            None => forall|j: int| from <= j < outputs.len() ==> (#[trigger] outputs[j]).id != id,
        },
    decreases outputs.len() - from,
{
    if from < outputs.len() && outputs[from].id != id {
        lemma_position_of_id(outputs, id, from + 1);
    }
}

/// What is left without a device holds none of its outputs, and every
/// output left was there before.
pub proof fn lemma_without_device(outputs: Seq<LogicalOutputView>, node: DeviceNode)
    ensures
        forall|i: int|
            0 <= i < without_device(outputs, node).len() ==> {
                &&& (#[trigger] without_device(outputs, node)[i]).id.device_id != node
                &&& outputs.contains(without_device(outputs, node)[i])
            },
        without_device(outputs, node).len() <= outputs.len(),
        (forall|i: int| 0 <= i < outputs.len() ==> (#[trigger] outputs[i]).id.device_id != node)
            ==> without_device(outputs, node) == outputs,
    decreases outputs.len(),
{
    if outputs.len() > 0 {
        let front = outputs.drop_last();
        lemma_without_device(front, node);
        let rest = without_device(outputs, node);
        assert forall|i: int| 0 <= i < rest.len() implies {
            &&& (#[trigger] rest[i]).id.device_id != node
            &&& outputs.contains(rest[i])
        } by {
            if i < without_device(front, node).len() {
                let o = without_device(front, node)[i];
                assert(front.contains(o));
                let k = choose|k: int| 0 <= k < front.len() && front[k] == o;
                assert(outputs[k] == o);
            } else {
                assert(outputs[outputs.len() - 1] == rest[i]);
            }
        }
        if forall|i: int| 0 <= i < outputs.len() ==> (#[trigger] outputs[i]).id.device_id != node {
            assert forall|i: int| 0 <= i < front.len() implies (#[trigger] front[i]).id.device_id
                != node by {
                assert(front[i] == outputs[i]);
            }
            assert(outputs.last() == outputs[outputs.len() - 1]);
            assert(front.push(outputs.last()) =~= outputs);
        }
    } else {
        assert(without_device(outputs, node) =~= outputs);
    }
}

/// The outputs mapped into the global layout, in the order in which they
/// were mapped.
pub struct OutputLayout {
    outputs: Vec<LogicalOutput>,
}

impl View for OutputLayout {
    type V = Seq<LogicalOutputView>;

    closed spec fn view(&self) -> Seq<LogicalOutputView> {
        Seq::new(self.outputs@.len(), |i: int| self.outputs@[i]@)
    }
}

impl OutputLayout {
    /// Every mapped output has a current mode, and no two are scanned out
    /// by the same device and CRTC.
    pub open spec fn wf(&self) -> bool {
        &&& forall|i: int| 0 <= i < self@.len() ==> mappable(#[trigger] self@[i])
        &&& ids_distinct(self@)
    }

    /// A layout without outputs.
    pub fn new() -> (layout: OutputLayout)
        ensures
            layout@ == Seq::<LogicalOutputView>::empty(),
            layout.wf(),
    {
        let layout = OutputLayout { outputs: Vec::new() };
        assert(layout@ =~= Seq::<LogicalOutputView>::empty());
        layout
    }

    /// Number of mapped outputs.
    pub fn len(&self) -> (n: usize)
        ensures
            n == self@.len(),
    {
        self.outputs.len()
    }

    /// The `i`-th mapped output.
    pub fn get(&self, i: usize) -> (output: Option<&LogicalOutput>)
        ensures
            i < self@.len() ==> (output matches Some(o) && o@ == self@[i as int]),
            i >= self@.len() ==> output is None,
    {
        if i < self.outputs.len() {
            Some(&self.outputs[i])
        } else {
            None
        }
    }

    /// The place of the output that `id` scans out.
    pub fn find(&self, id: OutputId) -> (place: Option<usize>)
        ensures
            match place {
                Some(i) => position_of_id(self@, id, 0) == Some(i as int),
                None => position_of_id(self@, id, 0) is None,
            },
    {
        let mut i: usize = 0;
        while i < self.outputs.len()
            invariant
                i <= self.outputs.len(),
                position_of_id(self@, id, 0) == position_of_id(self@, id, i as int),
            decreases self.outputs.len() - i,
        {
            assert(self@[i as int] == self.outputs@[i as int]@);
            if self.outputs[i].id == id {
                return Some(i);
            }
            i += 1;
        }
        None
    }

    /// Where the next output goes: to the right of all mapped outputs.
    pub fn next_position(&self) -> (position: Point)
        requires
            self.wf(),
        ensures
            position == next_position_spec(self@),
    {
        let mut x: i32 = 0;
        let mut i: usize = 0;
        while i < self.outputs.len()
            invariant
                i <= self.outputs.len(),
                self.wf(),
                x == clamp_width(total_width(self@.take(i as int))),
                total_width(self@.take(i as int)) >= 0,
            decreases self.outputs.len() - i,
        {
            proof {
                let upto = self@.take(i as int + 1);
                assert(upto.drop_last() =~= self@.take(i as int));
                assert(upto.last() == self@[i as int]);
                assert(self@[i as int] == self.outputs@[i as int]@);
                assert(mappable(self@[i as int]));
            }
            let width: i32 = match self.outputs[i].current_mode {
                Some(mode) => mode.width,
                None => 0,
            };
            let sum: i64 = x as i64 + width as i64;
            x = if sum > i32::MAX as i64 {
                i32::MAX
            } else {
                sum as i32
            };
            i += 1;
        }
        assert(self@.take(i as int) =~= self@);
        Point { x, y: 0 }
    }

    /// Maps `output`, in place of the output with the same id where one is
    /// mapped, else after all others. An output without a current mode, or
    /// with one of negative size, is not mapped and `false` is returned.
    pub fn map_output(&mut self, output: LogicalOutput) -> (done: bool)
        requires
            old(self).wf(),
        ensures
            final(self).wf(),
            done == mappable(output@),
            done ==> final(self)@ == mapped(old(self)@, output@),
            !done ==> final(self)@ == old(self)@,
    {
        let fits = match output.current_mode {
            Some(mode) => mode.width >= 0 && mode.height >= 0,
            None => false,
        };
        if !fits {
            return false;
        }
        let ghost before = self@;
        let ghost added = output@;
        proof {
            lemma_position_of_id(before, added.id, 0);
        }
        match self.find(output.id) {
            Some(i) => {
                self.outputs.set(i, output);
                assert(self@ =~= before.update(i as int, added));
            },
            None => {
                self.outputs.push(output);
                assert(self@ =~= before.push(added));
            },
        }
        true
    }

    /// Unmaps the output that `id` scans out, if one is mapped.
    pub fn unmap_output(&mut self, id: OutputId) -> (done: bool)
        requires
            old(self).wf(),
        ensures
            final(self).wf(),
            match position_of_id(old(self)@, id, 0) {
                Some(i) => done && final(self)@ == old(self)@.remove(i),
                None => !done && final(self)@ == old(self)@,
            },
    {
        let ghost before = self@;
        proof {
            lemma_position_of_id(before, id, 0);
        }
        match self.find(id) {
            Some(i) => {
                self.outputs.remove(i);
                assert(self@ =~= before.remove(i as int));
                true
            },
            None => false,
        }
    }

    /// Unmaps every output that `node` scans out.
    pub fn unmap_device(&mut self, node: DeviceNode)
        requires
            old(self).wf(),
        ensures
            final(self).wf(),
            final(self)@ == without_device(old(self)@, node),
    {
        let ghost before = self@;
        let ghost mut k: int = 0;
        let mut i: usize = 0;
        while i < self.outputs.len()
            invariant
                0 <= k <= before.len(),
                i <= self.outputs.len(),
                self@.len() - i == before.len() - k,
                self@.take(i as int) == without_device(before.take(k), node),
                self@.skip(i as int) == before.skip(k),
            decreases self.outputs.len() - i,
        {
            let ghost now = self@;
            proof {
                assert(now[i as int] == self.outputs@[i as int]@);
                assert(now.skip(i as int)[0] == before.skip(k)[0]);
                assert(before.take(k + 1).drop_last() =~= before.take(k));
                assert(before.take(k + 1).last() == before[k]);
            }
            if self.outputs[i].id.device_id == node {
                self.outputs.remove(i);
                proof {
                    assert(self@ =~= now.remove(i as int));
                    assert(self@.take(i as int) =~= now.take(i as int));
                    assert(self@.skip(i as int) =~= now.skip(i as int).skip(1));
                    assert(before.skip(k + 1) =~= before.skip(k).skip(1));
                    k = k + 1;
                }
            } else {
                proof {
                    assert(now.take(i as int + 1) =~= now.take(i as int).push(now[i as int]));
                    assert(now.skip(i as int + 1) =~= now.skip(i as int).skip(1));
                    assert(before.skip(k + 1) =~= before.skip(k).skip(1));
                    k = k + 1;
                }
                i += 1;
            }
        }
        proof {
            assert(self@.take(i as int) =~= self@);
            assert(before.take(k) =~= before);
            lemma_without_device(before, node);
            assert forall|a: int, b: int| 0 <= a < b < self@.len() implies (#[trigger] self@[a]).id
                != (#[trigger] self@[b]).id by {
                lemma_without_device_keeps_order(before, node, a, b);
            }
            assert forall|a: int| 0 <= a < self@.len() implies mappable(#[trigger] self@[a]) by {
                assert(before.contains(self@[a]));
            }
        }
    }

    /// Moves the output that `id` scans out to `position`.
    pub fn set_position(&mut self, id: OutputId, position: Point) -> (done: bool)
        requires
            old(self).wf(),
        ensures
            final(self).wf(),
            match position_of_id(old(self)@, id, 0) {
                Some(i) => done && final(self)@ == old(self)@.update(
                    i,
                    LogicalOutputView { position, ..old(self)@[i] },
                ),
                None => !done && final(self)@ == old(self)@,
            },
    {
        let ghost before = self@;
        proof {
            lemma_position_of_id(before, id, 0);
        }
        match self.find(id) {
            Some(i) => {
                assert(self.outputs@[i as int]@ == before[i as int]);
                self.outputs[i].position = position;
                assert(self@ =~= before.update(
                    i as int,
                    LogicalOutputView { position, ..before[i as int] },
                ));
                true
            },
            None => false,
        }
    }

    /// Lays the outputs out anew from left to right, in the order in which
    /// they are mapped.
    pub fn reflow(&mut self)
        requires
            old(self).wf(),
        ensures
            final(self).wf(),
            final(self)@ == reflowed(old(self)@),
    {
        let ghost before = self@;
        let mut x: i32 = 0;
        let mut i: usize = 0;
        while i < self.outputs.len()
            invariant
                i <= self.outputs.len(),
                self@.len() == before.len(),
                forall|j: int| 0 <= j < before.len() ==> mappable(#[trigger] before[j]),
                x == clamp_width(total_width(before.take(i as int))),
                total_width(before.take(i as int)) >= 0,
                forall|j: int| 0 <= j < i ==> #[trigger] self@[j] == reflowed(before)[j],
                forall|j: int| i <= j < before.len() ==> #[trigger] self@[j] == before[j],
            decreases self.outputs.len() - i,
        {
            let ghost now = self@;
            proof {
                let upto = before.take(i as int + 1);
                assert(upto.drop_last() =~= before.take(i as int));
                assert(upto.last() == before[i as int]);
                assert(now[i as int] == self.outputs@[i as int]@);
                assert(mappable(before[i as int]));
            }
            let width: i32 = match self.outputs[i].current_mode {
                Some(mode) => mode.width,
                None => 0,
            };
            self.outputs[i].position = Point { x, y: 0 };
            proof {
                assert(self@ =~= now.update(
                    i as int,
                    LogicalOutputView {
                        position: next_position_spec(before.take(i as int)),
                        ..before[i as int]
                    },
                ));
            }
            let sum: i64 = x as i64 + width as i64;
            x = if sum > i32::MAX as i64 {
                i32::MAX
            } else {
                sum as i32
            };
            i += 1;
        }
        assert(self@ =~= reflowed(before));
    }
}

/// Outputs keep their order when a device's outputs are taken out, so two
/// that are left were two different outputs before.
pub proof fn lemma_without_device_keeps_order(
    outputs: Seq<LogicalOutputView>,
    node: DeviceNode,
    a: int,
    b: int,
)
    requires
        ids_distinct(outputs),
        0 <= a < b < without_device(outputs, node).len(),
    ensures
        without_device(outputs, node)[a].id != without_device(outputs, node)[b].id,
    decreases outputs.len(),
{
    if outputs.len() > 0 {
        let front = outputs.drop_last();
        let rest = without_device(front, node);
        assert forall|i: int, j: int| 0 <= i < j < front.len() implies (#[trigger] front[i]).id != (
        #[trigger] front[j]).id by {
            assert(front[i] == outputs[i] && front[j] == outputs[j]);
        }
        if b < rest.len() {
            lemma_without_device_keeps_order(front, node, a, b);
        } else {
            lemma_without_device(front, node);
            assert(front.contains(rest[a]));
            let k = choose|k: int| 0 <= k < front.len() && front[k] == rest[a];
            assert(outputs[k].id != outputs[outputs.len() - 1].id);
        }
    }
}

/// Reflowing twice changes nothing more: widths and order are kept, and
/// positions depend on nothing else.
pub proof fn lemma_reflow_idempotent(outputs: Seq<LogicalOutputView>)
    ensures
        reflowed(reflowed(outputs)) == reflowed(outputs),
{
    let once = reflowed(outputs);
    assert forall|i: int| 0 <= i <= outputs.len() implies total_width(#[trigger] once.take(i))
        == total_width(outputs.take(i)) by {
        lemma_reflow_keeps_widths(outputs, i);
    }
    assert(reflowed(once) =~= once);
}

proof fn lemma_reflow_keeps_widths(outputs: Seq<LogicalOutputView>, i: int)
    requires
        0 <= i <= outputs.len(),
    ensures
        total_width(reflowed(outputs).take(i)) == total_width(outputs.take(i)),
    decreases i,
{
    if i > 0 {
        lemma_reflow_keeps_widths(outputs, i - 1);
        assert(reflowed(outputs).take(i).drop_last() =~= reflowed(outputs).take(i - 1));
        assert(outputs.take(i).drop_last() =~= outputs.take(i - 1));
    }
}

} // verus!
