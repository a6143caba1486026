use crate::device::DevType;
use crate::task::{ExecAction, ExecPhase, ReqStatus, TaskArg};
use vstd::prelude::*;

verus! {

/// A request to move data between host and devices: its arguments, the
/// number of copies the scheduler is asked to make, the target device, and
/// where the request stands in its execution.
pub struct Transfer<'a> {
    args: Vec<TaskArg<'a>>,
    curr_arg: usize,
    ncopies: usize,
    d_type: DevType,
    phase: ExecPhase,
}

impl<'a> Transfer<'a> {
    pub closed spec fn args(&self) -> Seq<TaskArg<'a>> {
        self.args@
    }

    pub closed spec fn set_count(&self) -> usize {
        self.curr_arg
    }

    pub closed spec fn copies(&self) -> usize {
        self.ncopies
    }

    pub closed spec fn device(&self) -> DevType {
        self.d_type
    }

    pub closed spec fn phase(&self) -> ExecPhase {
        self.phase
    }

    pub closed spec fn wf(&self) -> bool {
        &&& self.curr_arg <= self.args@.len()
        &&& self.args@.len() <= usize::MAX
        &&& !(self.phase is Locking)
    }

    /// A transfer of `num_args` arguments, none set yet, to any device.
    pub fn new(num_args: usize, ncopies: usize) -> (r: Transfer<'a>)
        ensures
            r.wf(),
            r.args().len() == num_args,
            forall|i: int| 0 <= i < num_args ==> (#[trigger] r.args()[i]).data is Empty,
            r.set_count() == 0,
            r.copies() == ncopies,
            r.device() == DevType::ANY,
            r.phase() == ExecPhase::Built,
    {
        let mut args: Vec<TaskArg<'a>> = Vec::new();
        let mut i: usize = 0;
        while i < num_args
            invariant
                i <= num_args,
                args@.len() == i,
                forall|j: int| 0 <= j < i ==> (#[trigger] args@[j]).data is Empty,
            decreases num_args - i,
        {
            args.push(TaskArg::empty());
            i = i + 1;
        }
        Transfer { args, curr_arg: 0, ncopies, d_type: DevType::ANY, phase: ExecPhase::Built }
    }

    /// Sets the next argument.
    pub fn arg(self, arg: TaskArg<'a>) -> (r: Transfer<'a>)
        requires
            self.wf(),
            self.phase() == ExecPhase::Built,
            self.set_count() < self.args().len(),
            !(arg.data is Empty),
        ensures
            r.wf(),
            r.args() == self.args().update(self.set_count() as int, arg),
            r.set_count() == self.set_count() + 1,
            r.copies() == self.copies(),
            r.device() == self.device(),
            r.phase() == self.phase(),
    {
        let mut t = self;
        t.args.set(t.curr_arg, arg);
        t.curr_arg = t.curr_arg + 1;
        t
    }

    /// Sets the target device.
    pub fn dev(self, d_type: DevType) -> (r: Transfer<'a>)
        requires
            self.wf(),
        ensures
            r.wf(),
            r.device() == d_type,
            r.args() == self.args(),
            r.set_count() == self.set_count(),
            r.copies() == self.copies(),
            r.phase() == self.phase(),
    {
        let mut t = self;
        t.d_type = d_type;
        t
    }

    /// Number of arguments set so far.
    pub fn num_set(&self) -> (r: usize)
        ensures
            r == self.set_count(),
    {
        self.curr_arg
    }

    /// Number of arguments of the transfer.
    pub fn num_args(&self) -> (r: usize)
        ensures
            r == self.args().len(),
    {
        self.args.len()
    }

    /// Number of copies the scheduler is asked to make.
    pub fn num_copies(&self) -> (r: usize)
        ensures
            r == self.copies(),
    {
        self.ncopies
    }

    /// The target device.
    pub fn device_type(&self) -> (r: DevType)
        ensures
            r == self.device(),
    {
        self.d_type
    }

    /// Starts executing: every argument must have been set. The transfer is
    /// submitted at once.
    pub fn begin_exec(&mut self) -> (a: ExecAction)
        requires
            old(self).wf(),
            old(self).phase() == ExecPhase::Built,
            old(self).set_count() == old(self).args().len(),
        ensures
            final(self).wf(),
            a == ExecAction::Submit,
            final(self).phase() == ExecPhase::Submitting,
            final(self).args() == old(self).args(),
    {
        self.phase = ExecPhase::Submitting;
        ExecAction::Submit
    }

    /// Records that the transfer was submitted: it is polled from now on.
    pub fn submitted(&mut self) -> (a: ExecAction)
        requires
            old(self).wf(),
            old(self).phase() == ExecPhase::Submitting,
        ensures
            final(self).wf(),
            a == ExecAction::Poll,
            final(self).phase() == ExecPhase::Polling,
            final(self).args() == old(self).args(),
    {
        self.phase = ExecPhase::Polling;
        ExecAction::Poll
    }

    /// Takes the status a poll returned: done once the runtime reports
    /// completion, polled again otherwise.
    pub fn polled(&mut self, status: ReqStatus) -> (a: ExecAction)
        requires
            old(self).wf(),
            old(self).phase() == ExecPhase::Polling,
        ensures
            final(self).wf(),
            a == (if status == ReqStatus::Completed {
                ExecAction::Done
            } else {
                ExecAction::Poll
            }),
            final(self).phase() == (if status == ReqStatus::Completed {
                ExecPhase::Completed
            } else {
                ExecPhase::Polling
            }),
            final(self).args() == old(self).args(),
    {
        if status == ReqStatus::Completed {
            self.phase = ExecPhase::Completed;
            ExecAction::Done
        } else {
            ExecAction::Poll
        }
    }
}

} // verus!
