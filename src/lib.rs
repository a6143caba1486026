//! Coordination of shared, range-locked device buffers for an asynchronous
//! task runtime.
//!
//! The crate holds the decision logic: which byte ranges of a registered
//! buffer are locked, how handles to a registration are counted, when the
//! runtime must be told to unregister a buffer, and how a task moves from
//! building to completion. Talking to the device runtime and driving the
//! cooperative loops is left to the caller, which performs the actions that
//! the functions here return.

mod buffer;
mod device;
mod mcl;
mod prog;
mod range_alloc;
mod sched;
mod task;
mod transfer;

pub use buffer::{
    drop_handles, drop_step, end_elem, first_elem, lemma_all_released_without_handles,
    lemma_drop_all_unregisters_once, lemma_held_is_locked, lemma_overlapping_not_both_held,
    lemma_parent_is_node, lemma_refs_are_live_handles, lemma_sole_handle, live_count, locks_kept,
    locks_kept_except, ranges_kept, slots_kept_except, AllocStep, ElemBound, ElemRange,
    Registration, RegisteredBuffer,
};
pub use device::{same_info, DevInfo, DevType};
pub use mcl::{Mcl, MclEnvBuilder, MCL_SET_BIND_WORKERS};
pub use prog::{PrgType, Prog};
pub use range_alloc::{conflicts, entry_clashes, lemma_acquire_release_round_trip, lemma_locked_disjoint, well_placed, Busy, RangeAllocator};
pub use sched::{evict_text, res_text, sched_args, sched_text, EvictPolicy, ResourcePolicy, SchedClass};
pub use task::{
    buffers_of, held_before, is_submitted, is_unset, lemma_submitted_tasks_exclusive, lock_from,
    locked_upto, next_buffer, phase_of, ArgOpt, ExecAction, ExecPhase,
    ReqStatus, Task, TaskArg, TaskArgData, TaskArgOrBuf, TaskBinProps,
};
pub use transfer::Transfer;
