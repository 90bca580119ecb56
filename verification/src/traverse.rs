use vstd::prelude::*;
use crate::buffer::{in_bounds, Buffer};
use crate::error::DecodeError;
use crate::mesh::{
    lemma_records_concat, node_block, node_records, records_of, MeshEvent, MeshRecord, Offset,
    OutputMode, Shift,
};
use crate::model::{object_at, read_object, TagObject};
use crate::palette::{Palette, Rgb};

verus! {

/// What the walk through a subtree leaves behind: the records it emitted,
/// the number of vertices written so far, and what is left of the node
/// budget.
pub struct WalkOut {
    pub records: Seq<MeshRecord>,
    pub written: int,
    pub budget: nat,
}

/// The number of nodes that a walk through a buffer of `len` bytes may
/// visit. The root is handed in; every other node is reached through a
/// non-zero 32-bit offset into the buffer. A walk that visits more nodes
/// than this has therefore come to some node twice.
pub open spec fn node_limit(len: nat) -> nat {
    if len == 0 {
        1
    } else if len > 0x1_0000_0000 {
        0x1_0000_0000
    } else {
        len
    }
}

/// The accumulated offset of `node` under a parent whose accumulated offset
/// is `parent`.
pub open spec fn shifted(parent: Shift, node: TagObject) -> Shift {
    Shift {
        x: parent.x + node.x_from_parent,
        y: parent.y + node.y_from_parent,
        z: parent.z + node.z_from_parent,
    }
}

/// The walk through the subtree that `link` points to: nothing where
/// `link` is 0, `OutOfBounds` where no node record fits at `link`, else the
/// walk from the node there.
pub open spec fn walk_link(
    data: Seq<u8>,
    palette: Seq<Rgb>,
    mode: OutputMode,
    link: u32,
    parent: Shift,
    written: int,
    budget: nat,
) -> Result<WalkOut, DecodeError>
    decreases budget, 1nat,
{
    if link == 0 {
        Ok(WalkOut { records: Seq::empty(), written, budget })
    } else if !in_bounds(data, link as int, 52) {
        Err(DecodeError::OutOfBounds)
    } else {
        walk(data, palette, mode, object_at(data, link as int), parent, written, budget)
    }
}

/// The walk from `node`, depth first: the node itself, then its children
/// under the node's own accumulated offset, then its siblings under the
/// offset of their common parent. Each node costs one unit of `budget`;
/// with none left the walk ends in `StructuralCycle`.
pub open spec fn walk(
    data: Seq<u8>,
    palette: Seq<Rgb>,
    mode: OutputMode,
    node: TagObject,
    parent: Shift,
    written: int,
    budget: nat,
) -> Result<WalkOut, DecodeError>
    decreases budget, 0nat,
{
    if budget == 0 {
        Err(DecodeError::StructuralCycle)
    } else {
        let here = shifted(parent, node);
        match node_records(data, palette, mode, node, here, written) {
            Err(e) => Err(e),
            Ok(block) => match walk_link(
                data,
                palette,
                mode,
                node.offset_to_child_object,
                here,
                written + node.number_of_vertexes,
                (budget - 1) as nat,
            ) {
                Err(e) => Err(e),
                Ok(child) => if child.budget >= budget {
                    // Never taken: a walk hands back no more budget than it
                    // was given. The test is what lets the definition recurse.
                    Err(DecodeError::StructuralCycle)
                } else {
                    match walk_link(
                        data,
                        palette,
                        mode,
                        node.offset_to_sibling_object,
                        parent,
                        child.written,
                        child.budget,
                    ) {
                        Err(e) => Err(e),
                        Ok(sibling) => Ok(
                            WalkOut {
                                records: block + child.records + sibling.records,
                                written: sibling.written,
                                budget: sibling.budget,
                            },
                        ),
                    }
                },
            },
        }
    }
}

/// The records of the whole model under the root `root`.
pub open spec fn model_records(
    data: Seq<u8>,
    palette: Seq<Rgb>,
    mode: OutputMode,
    root: TagObject,
) -> Result<Seq<MeshRecord>, DecodeError> {
    match walk(data, palette, mode, root, Shift { x: 0, y: 0, z: 0 }, 0, node_limit(data.len())) {
        Err(e) => Err(e),
        Ok(out) => Ok(out.records),
    }
}

/// A walk from a node uses up at least one unit of its budget; a walk from
/// a link hands back no more than it was given.
pub proof fn lemma_walk_spends(
    data: Seq<u8>,
    palette: Seq<Rgb>,
    mode: OutputMode,
    node: TagObject,
    parent: Shift,
    written: int,
    budget: nat,
)
    ensures
        walk(data, palette, mode, node, parent, written, budget) matches Ok(out) ==> out.budget
            < budget,
    decreases budget, 0nat,
{
    if budget > 0 {
        let here = shifted(parent, node);
        let child = walk_link(
            data,
            palette,
            mode,
            node.offset_to_child_object,
            here,
            written + node.number_of_vertexes,
            (budget - 1) as nat,
        );
        lemma_walk_link_spends(
            data,
            palette,
            mode,
            node.offset_to_child_object,
            here,
            written + node.number_of_vertexes,
            (budget - 1) as nat,
        );
        if child is Ok && child.unwrap().budget < budget {
            lemma_walk_link_spends(
                data,
                palette,
                mode,
                node.offset_to_sibling_object,
                parent,
                child.unwrap().written,
                child.unwrap().budget,
            );
        }
    }
}

/// A walk from a link hands back no more budget than it was given.
pub proof fn lemma_walk_link_spends(
    data: Seq<u8>,
    palette: Seq<Rgb>,
    mode: OutputMode,
    link: u32,
    parent: Shift,
    written: int,
    budget: nat,
)
    ensures
        walk_link(data, palette, mode, link, parent, written, budget) matches Ok(out)
            ==> out.budget <= budget,
    decreases budget, 1nat,
{
    if link != 0 && in_bounds(data, link as int, 52) {
        lemma_walk_spends(
            data,
            palette,
            mode,
            object_at(data, link as int),
            parent,
            written,
            budget,
        );
    }
}

/// A subtree that waits to be walked: where its first node lies, and the
/// accumulated offset under which it is walked.
#[derive(Clone, Copy)]
struct Pending {
    link: u32,
    shift: Offset,
}

/// `first`, then the walk through what waits on `stack`, last pushed first.
spec fn then_pending(
    first: Result<WalkOut, DecodeError>,
    data: Seq<u8>,
    palette: Seq<Rgb>,
    mode: OutputMode,
    stack: Seq<Pending>,
) -> Result<WalkOut, DecodeError>
    decreases stack.len(), 1nat,
{
    match first {
        Err(e) => Err(e),
        Ok(head) => match pending(data, palette, mode, stack, head.written, head.budget) {
            Err(e) => Err(e),
            Ok(rest) => Ok(
                WalkOut {
                    records: head.records + rest.records,
                    written: rest.written,
                    budget: rest.budget,
                },
            ),
        },
    }
}

/// The walk through what waits on `stack`, last pushed first.
spec fn pending(
    data: Seq<u8>,
    palette: Seq<Rgb>,
    mode: OutputMode,
    stack: Seq<Pending>,
    written: int,
    budget: nat,
) -> Result<WalkOut, DecodeError>
    decreases stack.len(), 0nat,
{
    if stack.len() == 0 {
        Ok(WalkOut { records: Seq::empty(), written, budget })
    } else {
        then_pending(
            walk_link(
                data,
                palette,
                mode,
                stack.last().link,
                stack.last().shift@,
                written,
                budget,
            ),
            data,
            palette,
            mode,
            stack.drop_last(),
        )
    }
}

/// `block` in front of the records of `rest`.
spec fn after_block(block: Seq<MeshRecord>, rest: Result<WalkOut, DecodeError>) -> Result<
    WalkOut,
    DecodeError,
> {
    match rest {
        Err(e) => Err(e),
        Ok(out) => Ok(
            WalkOut { records: block + out.records, written: out.written, budget: out.budget },
        ),
    }
}

/// What the caller is owed when `prefix` has been emitted and `rest` is
/// still to come.
spec fn outcome(prefix: Seq<MeshRecord>, rest: Result<WalkOut, DecodeError>) -> Result<
    Seq<MeshRecord>,
    DecodeError,
> {
    match rest {
        Err(e) => Err(e),
        Ok(out) => Ok(prefix + out.records),
    }
}

/// The stack after a visit to `node`: its sibling, if any, waits under the
/// parent's offset, and above it its child, if any, under the node's own.
spec fn pushed(stack: Seq<Pending>, node: TagObject, parent: Offset, here: Offset) -> Seq<
    Pending,
> {
    let with_sibling = if node.offset_to_sibling_object != 0 {
        stack.push(Pending { link: node.offset_to_sibling_object, shift: parent })
    } else {
        stack
    };
    if node.offset_to_child_object != 0 {
        with_sibling.push(Pending { link: node.offset_to_child_object, shift: here })
    } else {
        with_sibling
    }
}

proof fn lemma_pending_push(
    data: Seq<u8>,
    palette: Seq<Rgb>,
    mode: OutputMode,
    stack: Seq<Pending>,
    top: Pending,
    written: int,
    budget: nat,
)
    ensures
        pending(data, palette, mode, stack.push(top), written, budget) == then_pending(
            walk_link(data, palette, mode, top.link, top.shift@, written, budget),
            data,
            palette,
            mode,
            stack,
        ),
{
    assert(stack.push(top).drop_last() =~= stack);
    assert(stack.push(top).last() == top);
}

/// A visit to a node and the walk through what it pushed come to the walk
/// from that node.
proof fn lemma_visit(
    data: Seq<u8>,
    palette: Seq<Rgb>,
    mode: OutputMode,
    node: TagObject,
    parent: Offset,
    here: Offset,
    written: int,
    budget: nat,
    stack: Seq<Pending>,
    block: Seq<MeshRecord>,
)
    requires
        budget > 0,
        here@ == shifted(parent@, node),
        node_records(data, palette, mode, node, here@, written) == Ok::<
            Seq<MeshRecord>,
            DecodeError,
        >(block),
    ensures
        then_pending(
            walk(data, palette, mode, node, parent@, written, budget),
            data,
            palette,
            mode,
            stack,
        ) == after_block(
            block,
            pending(
                data,
                palette,
                mode,
                pushed(stack, node, parent, here),
                written + node.number_of_vertexes,
                (budget - 1) as nat,
            ),
        ),
{
    let w1 = written + node.number_of_vertexes;
    let b1 = (budget - 1) as nat;
    let sibling_item = Pending { link: node.offset_to_sibling_object, shift: parent };
    let child_item = Pending { link: node.offset_to_child_object, shift: here };
    let with_sibling = if node.offset_to_sibling_object != 0 {
        stack.push(sibling_item)
    } else {
        stack
    };
    let child = walk_link(data, palette, mode, node.offset_to_child_object, here@, w1, b1);
    lemma_walk_link_spends(data, palette, mode, node.offset_to_child_object, here@, w1, b1);
    if node.offset_to_child_object != 0 {
        lemma_pending_push(data, palette, mode, with_sibling, child_item, w1, b1);
    }
    match child {
        Err(e) => {},
        Ok(c) => {
            let sibling = walk_link(
                data,
                palette,
                mode,
                node.offset_to_sibling_object,
                parent@,
                c.written,
                c.budget,
            );
            if node.offset_to_sibling_object != 0 {
                lemma_pending_push(data, palette, mode, stack, sibling_item, c.written, c.budget);
            }
            match sibling {
                Err(e) => {},
                Ok(s) => {
                    match pending(data, palette, mode, stack, s.written, s.budget) {
                        Err(e) => {},
                        Ok(rest) => {
                            assert((block + c.records + s.records) + rest.records =~= block + (
                            c.records + (s.records + rest.records)));
                        },
                    }
                },
            }
        },
    }
}

/// What the caller is owed when `prefix` has been emitted, the walk from
/// `node` comes next and `stack` waits behind it.
#[verifier::opaque]
spec fn owed(
    prefix: Seq<MeshRecord>,
    data: Seq<u8>,
    palette: Seq<Rgb>,
    mode: OutputMode,
    node: TagObject,
    parent: Shift,
    written: int,
    budget: nat,
    stack: Seq<Pending>,
) -> Result<Seq<MeshRecord>, DecodeError> {
    outcome(
        prefix,
        then_pending(
            walk(data, palette, mode, node, parent, written, budget),
            data,
            palette,
            mode,
            stack,
        ),
    )
}

/// What the caller is owed when `prefix` has been emitted and only `stack`
/// waits.
#[verifier::opaque]
spec fn owed_waiting(
    prefix: Seq<MeshRecord>,
    data: Seq<u8>,
    palette: Seq<Rgb>,
    mode: OutputMode,
    stack: Seq<Pending>,
    written: int,
    budget: nat,
) -> Result<Seq<MeshRecord>, DecodeError> {
    outcome(prefix, pending(data, palette, mode, stack, written, budget))
}

proof fn lemma_owed_start(data: Seq<u8>, palette: Seq<Rgb>, mode: OutputMode, root: TagObject)
    ensures
        owed(
            Seq::empty(),
            data,
            palette,
            mode,
            root,
            Shift { x: 0, y: 0, z: 0 },
            0,
            node_limit(data.len()),
            Seq::empty(),
        ) == model_records(data, palette, mode, root),
{
    reveal(owed);
    let first = walk(
        data,
        palette,
        mode,
        root,
        Shift { x: 0, y: 0, z: 0 },
        0,
        node_limit(data.len()),
    );
    if first is Ok {
        assert(Seq::<MeshRecord>::empty() + (first.unwrap().records + Seq::<
            MeshRecord,
        >::empty()) =~= first.unwrap().records);
    }
}

proof fn lemma_owed_fails(
    prefix: Seq<MeshRecord>,
    data: Seq<u8>,
    palette: Seq<Rgb>,
    mode: OutputMode,
    node: TagObject,
    parent: Shift,
    written: int,
    budget: nat,
    stack: Seq<Pending>,
)
    ensures
        budget == 0 ==> owed(prefix, data, palette, mode, node, parent, written, budget, stack)
            == Err::<Seq<MeshRecord>, DecodeError>(DecodeError::StructuralCycle),
        budget > 0 ==> (node_records(
            data,
            palette,
            mode,
            node,
            shifted(parent, node),
            written,
        ) matches Err(e) ==> owed(
            prefix,
            data,
            palette,
            mode,
            node,
            parent,
            written,
            budget,
            stack,
        ) == Err::<Seq<MeshRecord>, DecodeError>(e)),
{
    reveal(owed);
}

proof fn lemma_owed_visit(
    prefix: Seq<MeshRecord>,
    data: Seq<u8>,
    palette: Seq<Rgb>,
    mode: OutputMode,
    node: TagObject,
    parent: Offset,
    here: Offset,
    written: int,
    budget: nat,
    stack: Seq<Pending>,
    block: Seq<MeshRecord>,
)
    requires
        budget > 0,
        here@ == shifted(parent@, node),
        node_records(data, palette, mode, node, here@, written) == Ok::<
            Seq<MeshRecord>,
            DecodeError,
        >(block),
    ensures
        owed(prefix, data, palette, mode, node, parent@, written, budget, stack) == owed_waiting(
            prefix + block,
            data,
            palette,
            mode,
            pushed(stack, node, parent, here),
            written + node.number_of_vertexes,
            (budget - 1) as nat,
        ),
{
    reveal(owed);
    reveal(owed_waiting);
    lemma_visit(data, palette, mode, node, parent, here, written, budget, stack, block);
    let waiting = pending(
        data,
        palette,
        mode,
        pushed(stack, node, parent, here),
        written + node.number_of_vertexes,
        (budget - 1) as nat,
    );
    if waiting is Ok {
        assert(prefix + (block + waiting.unwrap().records) =~= (prefix + block)
            + waiting.unwrap().records);
    }
}

proof fn lemma_owed_next(
    prefix: Seq<MeshRecord>,
    data: Seq<u8>,
    palette: Seq<Rgb>,
    mode: OutputMode,
    stack: Seq<Pending>,
    written: int,
    budget: nat,
)
    ensures
        stack.len() == 0 ==> owed_waiting(prefix, data, palette, mode, stack, written, budget)
            == Ok::<Seq<MeshRecord>, DecodeError>(prefix),
        stack.len() > 0 && stack.last().link != 0 && !in_bounds(
            data,
            stack.last().link as int,
            52,
        ) ==> owed_waiting(prefix, data, palette, mode, stack, written, budget) == Err::<
            Seq<MeshRecord>,
            DecodeError,
        >(DecodeError::OutOfBounds),
        stack.len() > 0 && stack.last().link != 0 && in_bounds(
            data,
            stack.last().link as int,
            52,
        ) ==> owed_waiting(prefix, data, palette, mode, stack, written, budget) == owed(
            prefix,
            data,
            palette,
            mode,
            object_at(data, stack.last().link as int),
            stack.last().shift@,
            written,
            budget,
            stack.drop_last(),
        ),
{
    reveal(owed);
    reveal(owed_waiting);
    if stack.len() == 0 {
        assert(prefix + Seq::<MeshRecord>::empty() =~= prefix);
    }
}

/// Whether every component of `shift` is the sum of at most `depth`
/// 32-bit offsets.
spec fn reach(shift: Shift, depth: int) -> bool {
    &&& -depth * 0x8000_0000 <= shift.x <= depth * 0x7FFF_FFFF
    &&& -depth * 0x8000_0000 <= shift.y <= depth * 0x7FFF_FFFF
    &&& -depth * 0x8000_0000 <= shift.z <= depth * 0x7FFF_FFFF
}

#[verifier::loop_isolation(false)]
fn walk_tree(buf: &mut Buffer, object: &TagObject, palette: &Palette, mode: OutputMode) -> (r:
    Result<Vec<MeshEvent>, DecodeError>)
    ensures
        final(buf)@.data == old(buf)@.data,
        r matches Ok(events) ==> owed(
            Seq::empty(),
            old(buf)@.data,
            palette@,
            mode,
            *object,
            Shift { x: 0, y: 0, z: 0 },
            0,
            node_limit(old(buf)@.data.len()),
            Seq::empty(),
        ) == Ok::<Seq<MeshRecord>, DecodeError>(records_of(events@)),
        r matches Err(e) ==> owed(
            Seq::empty(),
            old(buf)@.data,
            palette@,
            mode,
            *object,
            Shift { x: 0, y: 0, z: 0 },
            0,
            node_limit(old(buf)@.data.len()),
            Seq::empty(),
        ) == Err::<Seq<MeshRecord>, DecodeError>(e),
{
    let ghost data = buf@.data;
    let ghost goal = owed(
        Seq::empty(),
        data,
        palette@,
        mode,
        *object,
        Shift { x: 0, y: 0, z: 0 },
        0,
        node_limit(data.len()),
        Seq::empty(),
    );
    let length: usize = buf.len();
    let limit: u64 = if length == 0 {
        1
    } else if length as u64 > 0x1_0000_0000 {
        0x1_0000_0000
    } else {
        length as u64
    };
    let mut budget: u64 = limit;
    let mut written: u64 = 0;
    let mut events: Vec<MeshEvent> = Vec::new();
    let mut stack: Vec<Pending> = Vec::new();
    let mut node: TagObject = *object;
    let mut parent: Offset = Offset { x: 0, y: 0, z: 0 };
    assert(records_of(events@) =~= Seq::<MeshRecord>::empty());
    assert(stack@ =~= Seq::<Pending>::empty());
    loop
        invariant
            buf@.data == data,
            budget <= limit <= 0x1_0000_0000,
            written <= (limit - budget) * 0xFFFF_FFFF,
            reach(parent@, limit - budget),
            forall|i: int|
                0 <= i < stack@.len() ==> (#[trigger] stack@[i]).link != 0 && reach(
                    stack@[i].shift@,
                    limit - budget,
                ),
            goal == owed(
                records_of(events@),
                data,
                palette@,
                mode,
                node,
                parent@,
                written as int,
                budget as nat,
                stack@,
            ),
        decreases budget,
    {
        proof {
            lemma_owed_fails(
                records_of(events@),
                data,
                palette@,
                mode,
                node,
                parent@,
                written as int,
                budget as nat,
                stack@,
            );
        }
        if budget == 0 {
            return Err(DecodeError::StructuralCycle);
        }
        let here = Offset {
            x: parent.x + node.x_from_parent as i64,
            y: parent.y + node.y_from_parent as i64,
            z: parent.z + node.z_from_parent as i64,
        };
        let mut block = match node_block(buf, &node, written, here, palette, mode) {
            Err(e) => {
                return Err(e);
            },
            Ok(block) => block,
        };
        let ghost before = stack@;
        proof {
            lemma_records_concat(events@, block@);
            lemma_owed_visit(
                records_of(events@),
                data,
                palette@,
                mode,
                node,
                parent,
                here,
                written as int,
                budget as nat,
                before,
                records_of(block@),
            );
        }
        events.append(&mut block);
        if node.offset_to_sibling_object != 0 {
            stack.push(Pending { link: node.offset_to_sibling_object, shift: parent });
        }
        if node.offset_to_child_object != 0 {
            stack.push(Pending { link: node.offset_to_child_object, shift: here });
        }
        assert(stack@ == pushed(before, node, parent, here));
        written = written + node.number_of_vertexes as u64;
        budget = budget - 1;
        proof {
            lemma_owed_next(
                records_of(events@),
                data,
                palette@,
                mode,
                stack@,
                written as int,
                budget as nat,
            );
        }
        let ghost full = stack@;
        match stack.pop() {
            None => {
                return Ok(events);
            },
            Some(next) => {
                assert(next == full.last());
                assert(stack@ =~= full.drop_last());
                match buf.seek(next.link) {
                    Err(e) => {
                        return Err(e);
                    },
                    Ok(()) => {},
                }
                match read_object(buf) {
                    Err(e) => {
                        return Err(e);
                    },
                    Ok(found) => {
                        node = found;
                        parent = next.shift;
                    },
                }
            },
        }
    }
}

/// The records of the whole model under the root `object`, walked depth
/// first, children before siblings, from an accumulated offset of zero and
/// with no vertex written. A model whose links lead through more nodes
/// than [`node_limit`] allows is answered with `StructuralCycle`. The
/// cursor is moved while decoding and put back before returning.
pub fn traverse(buf: &mut Buffer, object: &TagObject, palette: &Palette, mode: OutputMode) -> (r:
    Result<Vec<MeshEvent>, DecodeError>)
    ensures
        final(buf)@ == old(buf)@,
        r matches Ok(events) ==> model_records(old(buf)@.data, palette@, mode, *object) == Ok::<
            Seq<MeshRecord>,
            DecodeError,
        >(records_of(events@)),
        r matches Err(e) ==> model_records(old(buf)@.data, palette@, mode, *object) == Err::<
            Seq<MeshRecord>,
            DecodeError,
        >(e),
{
    let start: usize = buf.position();
    proof {
        lemma_owed_start(buf@.data, palette@, mode, *object);
    }
    let r = walk_tree(buf, object, palette, mode);
    let _ = buf.seek_to(start);
    r
}

} // verus!
