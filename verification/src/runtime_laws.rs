//! What holds of chunks and of the dispatch loop as a whole.

use crate::runtime::{lemma_run_error_persists, lookup};
use crate::runtime::{ChunkView, FrameView, Instance, OpCode, VmError};
use vstd::prelude::*;

verus! {

/// On a chunk that is not locked every write of a sequence succeeds, and the
/// chunk then holds what it held before, followed by the sequence in the
/// order in which it was written.
pub proof fn lemma_writes_before_lock(chunk: ChunkView, ops: Seq<OpCode>)
    requires
        !chunk.locked,
    ensures
        forall|i: int|
            0 <= i < ops.len() ==> (#[trigger] chunk.write_all(ops.take(i))).write(ops[i]) is Ok,
        chunk.write_all(ops) == (ChunkView { ops: chunk.ops + ops, locked: false }),
    decreases ops.len(),
{
    if ops.len() == 0 {
        assert(chunk.ops + ops =~= chunk.ops);
    } else {
        let front = ops.drop_last();
        lemma_writes_before_lock(chunk, front);
        assert(chunk.ops + ops =~= (chunk.ops + front).push(ops.last()));
        assert forall|i: int| 0 <= i < ops.len() implies (#[trigger] chunk.write_all(
            ops.take(i),
        )).write(ops[i]) is Ok by {
            if i < front.len() {
                assert(ops.take(i) =~= front.take(i));
                assert(front[i] == ops[i]);
            } else {
                assert(ops.take(i) =~= front);
            }
        }
    }
}

/// Once a chunk is locked, whatever was written to it before, every further
/// write fails and the chunk stays as the lock left it.
pub proof fn lemma_writes_after_lock(chunk: ChunkView, written: Seq<OpCode>, attempts: Seq<OpCode>)
    ensures
        ({
            let locked = chunk.write_all(written).lock();
            &&& forall|i: int|
                0 <= i < attempts.len() ==> (#[trigger] locked.write_all(attempts.take(i))).write(
                    attempts[i],
                ) == Err::<ChunkView, VmError>(VmError::ChunkLocked)
            &&& locked.write_all(attempts) == locked
        }),
    decreases attempts.len(),
{
    let locked = chunk.write_all(written).lock();
    if attempts.len() > 0 {
        let front = attempts.drop_last();
        lemma_writes_after_lock(chunk, written, front);
        assert forall|i: int| 0 <= i < attempts.len() implies (#[trigger] locked.write_all(
            attempts.take(i),
        )).write(attempts[i]) == Err::<ChunkView, VmError>(VmError::ChunkLocked) by {
            if i < front.len() {
                assert(attempts.take(i) =~= front.take(i));
                assert(front[i] == attempts[i]);
            } else {
                assert(attempts.take(i) =~= front);
            }
        }
    }
}

/// Locking keeps the instructions, and locking again changes nothing.
pub proof fn lemma_lock_is_idempotent(chunk: ChunkView)
    ensures
        chunk.lock().ops == chunk.ops,
        chunk.lock().lock() == chunk.lock(),
{
}

/// An addition that gives a result empties both operand slots; one that
/// gives none changes nothing.
pub proof fn lemma_add_clears_operands(frame: FrameView)
    ensures
        frame.add_operands() matches Ok(after) ==> after == frame || (after.result is Some
            && after.left is None && after.right is None),
{
}

/// An operand instruction whose register holds no value stops with
/// [`VmError::InvalidRegisterKey`], whatever the frame holds.
pub proof fn lemma_register_miss_stops(
    frame: FrameView,
    registers: Map<u16, &'static Instance>,
    op: OpCode,
)
    requires
        op.operand_index() matches Some(index) && lookup(registers, index) is None,
    ensures
        frame.step(registers, op) == Err::<FrameView, VmError>(VmError::InvalidRegisterKey),
{
}

/// A run that reaches an operand instruction whose register holds no value
/// ends there with [`VmError::InvalidRegisterKey`]: no frame results.
pub proof fn lemma_register_miss_ends_run(
    frame: FrameView,
    registers: Map<u16, &'static Instance>,
    ops: Seq<OpCode>,
    n: int,
)
    requires
        0 <= n < ops.len(),
        frame.run(registers, ops.take(n)) is Ok,
        ops[n].operand_index() matches Some(index) && lookup(registers, index) is None,
    ensures
        frame.run(registers, ops) == Err::<FrameView, VmError>(VmError::InvalidRegisterKey),
{
    assert(ops.take(n + 1).drop_last() =~= ops.take(n));
    lemma_register_miss_stops(frame.run(registers, ops.take(n))->Ok_0, registers, ops[n]);
    lemma_run_error_persists(frame, registers, ops, n + 1);
}

} // verus!
