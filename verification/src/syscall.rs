//! The decisions a hosted thread makes around a syscall: how the memory a
//! call carries is tracked, what each kind of kernel response calls for,
//! and what happens to tracked memory once the kernel has answered.
use vstd::prelude::*;

verus! {

/// How a call hands memory to the kernel.
#[derive(Copy, Clone, Debug, PartialEq, Eq, Structural)]
pub enum CallMemoryKind {
    /// Lent for reading; it must come back unchanged.
    Borrow,
    /// Lent for writing; it comes back with the server's changes.
    MutableBorrow,
    /// Given away for good.
    Move,
    /// Handed back to the server that lent it.
    ReturnMemory,
}

/// The kind of memory a call carries, from the call's own description: a
/// borrow, else a mutable borrow, else a move, else returned memory. A
/// call that carries memory is always one of these.
pub fn call_memory_kind(
    is_borrow: bool,
    is_mutable_borrow: bool,
    is_move: bool,
    is_return_memory: bool,
) -> (kind: CallMemoryKind)
    requires
        is_borrow || is_mutable_borrow || is_move || is_return_memory,
    ensures
        is_borrow ==> kind == CallMemoryKind::Borrow,
        !is_borrow && is_mutable_borrow ==> kind == CallMemoryKind::MutableBorrow,
        !is_borrow && !is_mutable_borrow && is_move ==> kind == CallMemoryKind::Move,
        !is_borrow && !is_mutable_borrow && !is_move ==> kind == CallMemoryKind::ReturnMemory,
{
    if is_borrow {
        CallMemoryKind::Borrow
    } else if is_mutable_borrow {
        CallMemoryKind::MutableBorrow
    } else if is_move {
        CallMemoryKind::Move
    } else {
        CallMemoryKind::ReturnMemory
    }
}

/// What the kernel answered, as far as the hosted link cares.
#[derive(Copy, Clone, Debug, PartialEq, Eq, Structural)]
pub enum ResponseClass {
    /// The request was accepted but there is no answer yet.
    Blocked,
    /// The call could not be served now and must be made again.
    Retry,
    /// The call failed with an error.
    Failed,
    /// An incoming message that carries memory (moved, lent or mutably
    /// lent) of the given length; its bytes follow the header.
    MemoryMessage(usize),
    /// Any other answer.
    Other,
}

/// What the reader of the kernel link does after reading a response header.
#[derive(Copy, Clone, Debug, PartialEq, Eq, Structural)]
pub enum ResponseAction {
    /// Discard it and read the next header.
    ReadNext,
    /// Hand it to the waiting thread at once, leaving its tracked memory
    /// in place for the retried call.
    Deliver,
    /// Read this many bytes of message memory, then settle the thread's
    /// tracked memory and hand the response over.
    ReadPayloadThenSettle(usize),
    /// Settle the thread's tracked memory and hand the response over.
    Settle,
}

/// The reader's decision for each kind of response.
pub fn response_action(class: ResponseClass) -> (action: ResponseAction)
    ensures
        action == response_action_spec(class),
        class == ResponseClass::Blocked ==> action == ResponseAction::ReadNext,
        class == ResponseClass::Retry ==> action == ResponseAction::Deliver,
        forall|n: usize|
            class == ResponseClass::MemoryMessage(n) ==> action
                == ResponseAction::ReadPayloadThenSettle(n),
        class == ResponseClass::Failed || class == ResponseClass::Other ==> action
            == ResponseAction::Settle,
{
    proof {
        lemma_response_actions(class);
    }
    match class {
        ResponseClass::Blocked => ResponseAction::ReadNext,
        ResponseClass::Retry => ResponseAction::Deliver,
        ResponseClass::MemoryMessage(n) => ResponseAction::ReadPayloadThenSettle(n),
        _ => ResponseAction::Settle,
    }
}

/// What becomes of tracked memory once the call is answered.
#[derive(Copy, Clone, Debug, PartialEq, Eq, Structural)]
pub enum Release {
    /// Nothing: the caller still owns it.
    Keep,
    /// It was moved away: unmap it.
    Unmap,
    /// It was handed back: free it.
    Free,
}

/// How the reader settles a thread's tracked memory.
#[derive(Copy, Clone, Debug, PartialEq, Eq, Structural)]
pub struct Settlement {
    /// How many bytes the kernel sends back into the memory.
    pub read_back: usize,
    /// Whether the bytes sent back must equal what was lent.
    pub check_unchanged: bool,
    /// What happens to the memory afterwards.
    pub release: Release,
}

/// Settling tracked memory of `len` bytes: lent memory (borrowed or
/// mutably borrowed) is read back from the kernel, and a plain borrow must
/// come back unchanged; moved memory is unmapped and returned memory freed.
pub fn settle_memory(kind: CallMemoryKind, len: usize) -> (s: Settlement)
    ensures
        s.read_back == (if kind == CallMemoryKind::Borrow || kind == CallMemoryKind::MutableBorrow {
            len
        } else {
            0
        }),
        s.check_unchanged <==> kind == CallMemoryKind::Borrow,
        s.release == (match kind {
            CallMemoryKind::Move => Release::Unmap,
            CallMemoryKind::ReturnMemory => Release::Free,
            _ => Release::Keep,
        }),
{
    match kind {
        CallMemoryKind::Borrow => Settlement {
            read_back: len,
            check_unchanged: true,
            release: Release::Keep,
        },
        CallMemoryKind::MutableBorrow => Settlement {
            read_back: len,
            check_unchanged: false,
            release: Release::Keep,
        },
        CallMemoryKind::Move => Settlement { read_back: 0, check_unchanged: false, release: Release::Unmap },
        CallMemoryKind::ReturnMemory => Settlement {
            read_back: 0,
            check_unchanged: false,
            release: Release::Free,
        },
    }
}

/// Whether lent memory came back exactly as it was lent.
pub fn contents_unchanged(previous: &[u8], current: &[u8]) -> (same: bool)
    ensures
        same <==> previous@ == current@,
{
    if previous.len() != current.len() {
        return false;
    }
    let mut i: usize = 0;
    while i < previous.len()
        invariant
            i <= previous@.len(),
            previous@.len() == current@.len(),
            forall|j: int| 0 <= j < i ==> previous@[j] == current@[j],
        decreases previous@.len() - i,
    {
        if previous[i] != current[i] {
            return false;
        }
        i = i + 1;
    }
    assert(previous@ =~= current@);
    true
}

/// Where a syscall goes after the kernel answered.
#[derive(Copy, Clone, Debug, PartialEq, Eq, Structural)]
pub enum SyscallStep {
    /// Return the kernel's error to the caller.
    Fail,
    /// Wait a moment and make the call again.
    Retry,
    /// Return the kernel's answer to the caller.
    Complete,
}

/// A syscall fails on an error answer, is made again on a retry answer, and
/// completes with any other answer.
pub fn syscall_step(class: ResponseClass) -> (step: SyscallStep)
    ensures
        step == syscall_step_spec(class),
        step == SyscallStep::Fail <==> class == ResponseClass::Failed,
        step == SyscallStep::Retry <==> class == ResponseClass::Retry,
        class != ResponseClass::Failed && class != ResponseClass::Retry ==> step
            == SyscallStep::Complete,
{
    proof {
        lemma_syscall_steps(class);
    }
    match class {
        ResponseClass::Failed => SyscallStep::Fail,
        ResponseClass::Retry => SyscallStep::Retry,
        _ => SyscallStep::Complete,
    }
}

/// A response that the reader hands over at once is one the calling
/// thread retries, and nothing the reader skips ever reaches it.
pub proof fn lemma_reader_and_caller_agree(class: ResponseClass)
    ensures
        response_action_spec(class) == ResponseAction::Deliver <==> class == ResponseClass::Retry,
        class == ResponseClass::Retry ==> syscall_step_spec(class) == SyscallStep::Retry,
        response_action_spec(class) != ResponseAction::ReadNext ==> class != ResponseClass::Blocked,
{
}

/// What the reader does with each response: skip a blocked answer, hand
/// a retry answer straight back, read exactly the `n` bytes an incoming
/// memory message carries before settling, and settle on any other answer.
pub proof fn lemma_response_actions(class: ResponseClass)
    ensures
        class == ResponseClass::Blocked ==> response_action_spec(class) == ResponseAction::ReadNext,
        class == ResponseClass::Retry ==> response_action_spec(class) == ResponseAction::Deliver,
        forall|n: usize|
            class == ResponseClass::MemoryMessage(n) ==> response_action_spec(class)
                == ResponseAction::ReadPayloadThenSettle(n),
        class == ResponseClass::Failed || class == ResponseClass::Other ==> response_action_spec(
            class,
        ) == ResponseAction::Settle,
        forall|n: usize|
            response_action_spec(class) == ResponseAction::ReadPayloadThenSettle(n) ==> class
                == ResponseClass::MemoryMessage(n),
{
}

/// A syscall fails only on an error answer, is made again only on a retry
/// answer, and completes on every other answer (memory messages of any
/// length included).
pub proof fn lemma_syscall_steps(class: ResponseClass)
    ensures
        syscall_step_spec(class) == SyscallStep::Fail <==> class == ResponseClass::Failed,
        syscall_step_spec(class) == SyscallStep::Retry <==> class == ResponseClass::Retry,
        class != ResponseClass::Failed && class != ResponseClass::Retry ==> syscall_step_spec(
            class,
        ) == SyscallStep::Complete,
{
}

/// The reader's decision for a response, as a specification.
pub open spec fn response_action_spec(class: ResponseClass) -> ResponseAction {
    match class {
        ResponseClass::Blocked => ResponseAction::ReadNext,
        ResponseClass::Retry => ResponseAction::Deliver,
        ResponseClass::MemoryMessage(n) => ResponseAction::ReadPayloadThenSettle(n),
        _ => ResponseAction::Settle,
    }
}

/// Where a syscall goes after an answer, as a specification.
pub open spec fn syscall_step_spec(class: ResponseClass) -> SyscallStep {
    match class {
        ResponseClass::Failed => SyscallStep::Fail,
        ResponseClass::Retry => SyscallStep::Retry,
        _ => SyscallStep::Complete,
    }
}

} // verus!
