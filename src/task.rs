use crate::buffer::{
    lemma_overlapping_not_both_held, locks_kept_except, ranges_kept, slots_kept_except, AllocStep,
    Registration, RegisteredBuffer,
};
use crate::range_alloc::{conflicts, entry_clashes};
use crate::device::DevType;
use vstd::prelude::*;

verus! {

/// Status of a submitted request, as the runtime reports it when polled.
#[derive(Clone, Copy, Debug, PartialEq, Eq, Structural)]
pub enum ReqStatus {
    Completed,
    Allocated,
    Pending,
    InProgress,
    Finishing,
    Unknown,
}

/// How the runtime is to treat a task argument.
#[derive(Clone, Copy, Debug, PartialEq, Eq, Structural)]
pub struct ArgOpt {
    pub input: bool,
    pub output: bool,
    pub scalar: bool,
    pub buffer: bool,
    pub resident: bool,
    pub invalid: bool,
    pub rdonly: bool,
    pub wronly: bool,
    pub done: bool,
    pub dynamic: bool,
}

impl ArgOpt {
    /// No option set.
    pub fn empty() -> (r: ArgOpt)
        ensures
            r == ArgOpt::none(),
    {
        ArgOpt {
            input: false,
            output: false,
            scalar: false,
            buffer: false,
            resident: false,
            invalid: false,
            rdonly: false,
            wronly: false,
            done: false,
            dynamic: false,
        }
    }

    pub open spec fn none() -> ArgOpt {
        ArgOpt {
            input: false,
            output: false,
            scalar: false,
            buffer: false,
            resident: false,
            invalid: false,
            rdonly: false,
            wronly: false,
            done: false,
            dynamic: false,
        }
    }
}

/// The data of a task argument, viewed as bytes.
#[derive(Clone, Copy)]
pub enum TaskArgData<'a> {
    Scalar(&'a [u8]),
    Buffer(&'a [u8]),
    Empty,
}

/// A data argument of a task, with its options and the size of one element
/// of the data it was made from.
#[derive(Clone, Copy)]
pub struct TaskArg<'a> {
    pub data: TaskArgData<'a>,
    pub flags: ArgOpt,
    pub orig_type_size: usize,
}

impl<'a> TaskArg<'a> {
    /// Number of bytes of the argument's data.
    pub open spec fn byte_len(&self) -> nat {
        match self.data {
            TaskArgData::Scalar(x) => x@.len(),
            TaskArgData::Buffer(x) => x@.len(),
            TaskArgData::Empty => 0,
        }
    }

    fn with_data(data: TaskArgData<'a>, flags: ArgOpt, elem_size: usize) -> (r: TaskArg<'a>)
        ensures
            r == (TaskArg { data, flags, orig_type_size: elem_size }),
    {
        TaskArg { data, flags, orig_type_size: elem_size }
    }

    /// The argument that stands for no data yet.
    pub fn empty() -> (r: TaskArg<'a>)
        ensures
            r.data is Empty,
            r.flags == ArgOpt::none(),
            r.orig_type_size == 0,
    {
        TaskArg::with_data(TaskArgData::Empty, ArgOpt::empty(), 0)
    }

    /// An input buffer over the bytes of a slice whose elements take
    /// `elem_size` bytes.
    pub fn input_slice(bytes: &'a [u8], elem_size: usize) -> (r: TaskArg<'a>)
        ensures
            r.data == TaskArgData::Buffer(bytes),
            r.flags == (ArgOpt { input: true, buffer: true, ..ArgOpt::none() }),
            r.orig_type_size == elem_size,
    {
        let f = ArgOpt { input: true, buffer: true, ..ArgOpt::empty() };
        TaskArg::with_data(TaskArgData::Buffer(bytes), f, elem_size)
    }

    /// An input scalar over the bytes of a value of `elem_size` bytes.
    pub fn input_scalar(bytes: &'a [u8], elem_size: usize) -> (r: TaskArg<'a>)
        ensures
            r.data == TaskArgData::Scalar(bytes),
            r.flags == (ArgOpt { input: true, scalar: true, ..ArgOpt::none() }),
            r.orig_type_size == elem_size,
    {
        let f = ArgOpt { input: true, scalar: true, ..ArgOpt::empty() };
        TaskArg::with_data(TaskArgData::Scalar(bytes), f, elem_size)
    }

    /// An output buffer over the bytes of a slice.
    pub fn output_slice(bytes: &'a [u8], elem_size: usize) -> (r: TaskArg<'a>)
        ensures
            r.data == TaskArgData::Buffer(bytes),
            r.flags == (ArgOpt { output: true, buffer: true, ..ArgOpt::none() }),
            r.orig_type_size == elem_size,
    {
        let f = ArgOpt { output: true, buffer: true, ..ArgOpt::empty() };
        TaskArg::with_data(TaskArgData::Buffer(bytes), f, elem_size)
    }

    /// An output scalar; the runtime takes every output as a buffer.
    pub fn output_scalar(bytes: &'a [u8], elem_size: usize) -> (r: TaskArg<'a>)
        ensures
            r.data == TaskArgData::Buffer(bytes),
            r.flags == (ArgOpt { output: true, buffer: true, ..ArgOpt::none() }),
            r.orig_type_size == elem_size,
    {
        let f = ArgOpt { output: true, buffer: true, ..ArgOpt::empty() };
        TaskArg::with_data(TaskArgData::Buffer(bytes), f, elem_size)
    }

    /// A buffer that is both read and written.
    pub fn inout_slice(bytes: &'a [u8], elem_size: usize) -> (r: TaskArg<'a>)
        ensures
            r.data == TaskArgData::Buffer(bytes),
            r.flags == (ArgOpt { input: true, output: true, buffer: true, ..ArgOpt::none() }),
            r.orig_type_size == elem_size,
    {
        let f = ArgOpt { input: true, output: true, buffer: true, ..ArgOpt::empty() };
        TaskArg::with_data(TaskArgData::Buffer(bytes), f, elem_size)
    }

    /// A scalar that is both read and written, passed as a buffer.
    pub fn inout_scalar(bytes: &'a [u8], elem_size: usize) -> (r: TaskArg<'a>)
        ensures
            r.data == TaskArgData::Buffer(bytes),
            r.flags == (ArgOpt { input: true, output: true, buffer: true, ..ArgOpt::none() }),
            r.orig_type_size == elem_size,
    {
        let f = ArgOpt { input: true, output: true, buffer: true, ..ArgOpt::empty() };
        TaskArg::with_data(TaskArgData::Buffer(bytes), f, elem_size)
    }

    /// Sets or clears the option that keeps the data resident on the device.
    pub fn resident(self, val: bool) -> (r: TaskArg<'a>)
        ensures
            r == (TaskArg { flags: ArgOpt { resident: val, ..self.flags }, ..self }),
    {
        TaskArg { flags: ArgOpt { resident: val, ..self.flags }, ..self }
    }

    /// Sets or clears the option that lets the runtime move the data between
    /// devices.
    pub fn dynamic(self, val: bool) -> (r: TaskArg<'a>)
        ensures
            r == (TaskArg { flags: ArgOpt { dynamic: val, ..self.flags }, ..self }),
    {
        TaskArg { flags: ArgOpt { dynamic: val, ..self.flags }, ..self }
    }

    /// Sets or clears the option that marks the last use of the data.
    pub fn done(self, val: bool) -> (r: TaskArg<'a>)
        ensures
            r == (TaskArg { flags: ArgOpt { done: val, ..self.flags }, ..self }),
    {
        TaskArg { flags: ArgOpt { done: val, ..self.flags }, ..self }
    }

    /// Sets or clears the option that marks device copies as stale.
    pub fn invalid(self, val: bool) -> (r: TaskArg<'a>)
        ensures
            r == (TaskArg { flags: ArgOpt { invalid: val, ..self.flags }, ..self }),
    {
        TaskArg { flags: ArgOpt { invalid: val, ..self.flags }, ..self }
    }

    /// Sets or clears the read-only option.
    pub fn read_only(self, val: bool) -> (r: TaskArg<'a>)
        ensures
            r == (TaskArg { flags: ArgOpt { rdonly: val, ..self.flags }, ..self }),
    {
        TaskArg { flags: ArgOpt { rdonly: val, ..self.flags }, ..self }
    }

    /// Sets or clears the write-only option.
    pub fn write_only(self, val: bool) -> (r: TaskArg<'a>)
        ensures
            r == (TaskArg { flags: ArgOpt { wronly: val, ..self.flags }, ..self }),
    {
        TaskArg { flags: ArgOpt { wronly: val, ..self.flags }, ..self }
    }

    /// Number of bytes of the argument's data.
    pub fn len(&self) -> (r: usize)
        ensures
            r == self.byte_len(),
    {
        match self.data {
            TaskArgData::Scalar(x) => x.len(),
            TaskArgData::Buffer(x) => x.len(),
            TaskArgData::Empty => 0,
        }
    }
}

/// Properties of a binary kernel: the number of devices and the device
/// types it is built for, and its name.
pub struct TaskBinProps {
    devices: u64,
    types: u64,
    name: String,
}

impl TaskBinProps {
    pub closed spec fn spec_devices(&self) -> u64 {
        self.devices
    }

    pub closed spec fn spec_types(&self) -> u64 {
        self.types
    }

    pub closed spec fn spec_name(&self) -> Seq<char> {
        self.name@
    }

    pub fn new(num_devices: u64, types: u64, name: &str) -> (r: TaskBinProps)
        ensures
            r.spec_devices() == num_devices,
            r.spec_types() == types,
            r.spec_name() == name@,
    {
        TaskBinProps { devices: num_devices, types, name: name.to_owned() }
    }

    pub fn get_devices(&self) -> (r: u64)
        ensures
            r == self.spec_devices(),
    {
        self.devices
    }

    pub fn get_types(&self) -> (r: u64)
        ensures
            r == self.spec_types(),
    {
        self.types
    }

    pub fn get_name(&self) -> (r: String)
        ensures
            r@ == self.spec_name(),
    {
        self.name.clone()
    }
}

/// An argument slot of a task: plain data, or a handle to a registered buffer.
pub enum TaskArgOrBuf<'a> {
    TaskArg(TaskArg<'a>),
    RegBuf(RegisteredBuffer),
}

/// Whether an argument slot is still waiting for its argument.
pub open spec fn is_unset(a: TaskArgOrBuf) -> bool {
    match a {
        TaskArgOrBuf::TaskArg(x) => x.data is Empty,
        TaskArgOrBuf::RegBuf(_) => false,
    }
}

/// Where a task stands in its execution.
#[derive(Clone, Copy, Debug, PartialEq, Eq, Structural)]
pub enum ExecPhase {
    /// Arguments are being set.
    Built,
    /// The range of the buffer argument at this index is being locked.
    Locking(usize),
    /// Every buffer argument is locked; the task is to be submitted.
    Submitting,
    /// Submitted; the runtime is polled until it reports completion.
    Polling,
    /// The runtime reported completion.
    Completed,
}

/// What the caller does next for a task in execution.
#[derive(Clone, Copy, Debug, PartialEq, Eq, Structural)]
pub enum ExecAction {
    /// Attempt to lock the range of the buffer argument at this index; after
    /// a failed attempt, yield to the scheduler before the next one.
    Lock(usize),
    /// Submit the task to the runtime.
    Submit,
    /// Poll the runtime for the task's status; after a status other than
    /// completion, yield to the scheduler before the next poll.
    Poll,
    /// The task has completed.
    Done,
}

/// Index of the first buffer argument at or after `from`, or the number of
/// arguments if there is none.
pub open spec fn next_buffer(args: Seq<TaskArgOrBuf>, from: int) -> int
    decreases args.len() - from,
{
    if from >= args.len() {
        args.len() as int
    } else if args[from] is RegBuf {
        from
    } else {
        next_buffer(args, from + 1)
    }
}

proof fn lemma_next_buffer_bounds(args: Seq<TaskArgOrBuf>, from: int)
    requires
        0 <= from,
    ensures
        from <= next_buffer(args, from) || from > args.len(),
        next_buffer(args, from) <= args.len(),
        next_buffer(args, from) < args.len() ==> args[next_buffer(args, from)] is RegBuf,
        forall|j: int| from <= j < next_buffer(args, from) ==> !(#[trigger] args[j] is RegBuf),
    decreases args.len() - from,
{
    if from < args.len() && !(args[from] is RegBuf) {
        lemma_next_buffer_bounds(args, from + 1);
    }
}

/// The buffer handles among `args`, in argument order.
pub open spec fn buffers_of(args: Seq<TaskArgOrBuf>) -> Seq<RegisteredBuffer>
    decreases args.len(),
{
    if args.len() == 0 {
        Seq::empty()
    } else {
        let rest = buffers_of(args.drop_first());
        match args[0] {
            TaskArgOrBuf::RegBuf(b) => seq![b] + rest,
            TaskArgOrBuf::TaskArg(_) => rest,
        }
    }
}

/// The buffer arguments before index `i` are live handles of `reg` that
/// hold their ranges.
pub open spec fn held_before(reg: &Registration, args: Seq<TaskArgOrBuf>, i: int) -> bool {
    forall|j: int|
        0 <= j < i && j < args.len() && (#[trigger] args[j]) is RegBuf ==> {
            &&& reg.holds(&args[j]->RegBuf_0)
            &&& reg.is_held(args[j]->RegBuf_0.slot() as int)
        }
}

/// Index up to which a task in phase `p` has locked its buffer arguments.
pub open spec fn locked_upto(p: ExecPhase, nargs: int) -> int {
    match p {
        ExecPhase::Built => 0,
        ExecPhase::Locking(i) => i as int,
        _ => nargs,
    }
}

/// Whether a task in phase `p` has been submitted.
pub open spec fn is_submitted(p: ExecPhase) -> bool {
    p is Submitting || p is Polling || p is Completed
}

/// The action that starts locking at the first buffer argument from `from`
/// on, or submits when none is left.
pub open spec fn lock_from(args: Seq<TaskArgOrBuf>, from: int) -> ExecAction {
    if next_buffer(args, from) < args.len() {
        ExecAction::Lock(next_buffer(args, from) as usize)
    } else {
        ExecAction::Submit
    }
}

/// The phase that goes with an action just handed out.
pub open spec fn phase_of(a: ExecAction) -> ExecPhase {
    match a {
        ExecAction::Lock(i) => ExecPhase::Locking(i),
        ExecAction::Submit => ExecPhase::Submitting,
        ExecAction::Poll => ExecPhase::Polling,
        ExecAction::Done => ExecPhase::Completed,
    }
}

/// A unit of work for one kernel: its ordered arguments, preferred device and
/// local work size, and where it stands in its execution.
pub struct Task<'a> {
    kernel: String,
    args: Vec<TaskArgOrBuf<'a>>,
    curr_arg: usize,
    les: Option<[u64; 3]>,
    dev: DevType,
    shared_id: Option<u32>,
    phase: ExecPhase,
}

impl<'a> Task<'a> {
    pub closed spec fn kernel_view(&self) -> Seq<char> {
        self.kernel@
    }

    pub closed spec fn args(&self) -> Seq<TaskArgOrBuf<'a>> {
        self.args@
    }

    /// Number of arguments set so far.
    pub closed spec fn set_count(&self) -> usize {
        self.curr_arg
    }

    pub closed spec fn local_size(&self) -> Option<[u64; 3]> {
        self.les
    }

    pub closed spec fn device(&self) -> DevType {
        self.dev
    }

    pub closed spec fn shared(&self) -> Option<u32> {
        self.shared_id
    }

    pub closed spec fn phase(&self) -> ExecPhase {
        self.phase
    }

    pub closed spec fn wf(&self) -> bool {
        &&& self.curr_arg <= self.args@.len()
        &&& self.args@.len() <= usize::MAX
        &&& (self.phase matches ExecPhase::Locking(i) ==> i < self.args@.len()
            && self.args@[i as int] is RegBuf)
    }

    /// A task for kernel `kernel_name` taking `nargs` arguments, none set
    /// yet, on any device.
    pub fn new(kernel_name: &str, nargs: usize) -> (r: Task<'a>)
        ensures
            r.wf(),
            r.kernel_view() == kernel_name@,
            r.args().len() == nargs,
            forall|i: int| 0 <= i < nargs ==> is_unset(#[trigger] r.args()[i]),
            r.set_count() == 0,
            r.local_size() is None,
            r.device() == DevType::ANY,
            r.shared() is None,
            r.phase() == ExecPhase::Built,
    {
        let mut args: Vec<TaskArgOrBuf<'a>> = Vec::new();
        let mut i: usize = 0;
        while i < nargs
            invariant
                i <= nargs,
                args@.len() == i,
                forall|j: int| 0 <= j < i ==> is_unset(#[trigger] args@[j]),
            decreases nargs - i,
        {
            args.push(TaskArgOrBuf::TaskArg(TaskArg::empty()));
            i = i + 1;
        }
        Task {
            kernel: kernel_name.to_owned(),
            args,
            curr_arg: 0,
            les: None,
            dev: DevType::ANY,
            shared_id: None,
            phase: ExecPhase::Built,
        }
    }

    /// Sets the next argument to plain data. Arguments are set in the order
    /// the kernel expects them.
    pub fn arg(self, arg: TaskArg<'a>) -> (r: Task<'a>)
        requires
            self.wf(),
            self.phase() == ExecPhase::Built,
            self.set_count() < self.args().len(),
            !(arg.data is Empty),
        ensures
            r.wf(),
            r.args() == self.args().update(self.set_count() as int, TaskArgOrBuf::TaskArg(arg)),
            r.set_count() == self.set_count() + 1,
            r.kernel_view() == self.kernel_view(),
            r.local_size() == self.local_size(),
            r.device() == self.device(),
            r.phase() == self.phase(),
    {
        let mut t = self;
        t.args.set(t.curr_arg, TaskArgOrBuf::TaskArg(arg));
        t.curr_arg = t.curr_arg + 1;
        t
    }
    /// Sets the next argument to a handle of a registered buffer. Its range
    /// is locked when the task executes.
    pub fn arg_buffer(self, buffer: RegisteredBuffer) -> (r: Task<'a>)
        requires
            self.wf(),
            self.phase() == ExecPhase::Built,
            self.set_count() < self.args().len(),
        ensures
            r.wf(),
            r.args() == self.args().update(self.set_count() as int, TaskArgOrBuf::RegBuf(buffer)),
            r.set_count() == self.set_count() + 1,
            r.kernel_view() == self.kernel_view(),
            r.local_size() == self.local_size(),
            r.device() == self.device(),
            r.phase() == self.phase(),
    {
        let mut t = self;
        t.args.set(t.curr_arg, TaskArgOrBuf::RegBuf(buffer));
        t.curr_arg = t.curr_arg + 1;
        t
    }

    /// Sets the local work size.
    pub fn lwsize(self, les: [u64; 3]) -> (r: Task<'a>)
        requires
            self.wf(),
        ensures
            r.wf(),
            r.local_size() == Some(les),
            r.args() == self.args(),
            r.set_count() == self.set_count(),
            r.kernel_view() == self.kernel_view(),
            r.device() == self.device(),
            r.phase() == self.phase(),
    {
        let mut t = self;
        t.les = Some(les);
        t
    }

    /// Sets the preferred device.
    pub fn dev(self, dev: DevType) -> (r: Task<'a>)
        requires
            self.wf(),
        ensures
            r.wf(),
            r.device() == dev,
            r.args() == self.args(),
            r.set_count() == self.set_count(),
            r.kernel_view() == self.kernel_view(),
            r.local_size() == self.local_size(),
            r.phase() == self.phase(),
    {
        let mut t = self;
        t.dev = dev;
        t
    }

    /// The task's id among shared tasks; plain tasks have none.
    pub fn shared_id(&self) -> (r: Option<u32>)
        ensures
            r == self.shared(),
    {
        self.shared_id
    }

    /// Name of the kernel.
    pub fn kernel_name(&self) -> (r: &str)
        ensures
            r@ == self.kernel_view(),
    {
        self.kernel.as_str()
    }

    /// Number of arguments the kernel takes.
    pub fn num_args(&self) -> (r: usize)
        ensures
            r == self.args().len(),
    {
        self.args.len()
    }

    /// Number of arguments set so far.
    pub fn num_set(&self) -> (r: usize)
        ensures
            r == self.set_count(),
    {
        self.curr_arg
    }

    /// The local work size, if one was set.
    pub fn local_work_size(&self) -> (r: Option<[u64; 3]>)
        ensures
            r == self.local_size(),
    {
        self.les
    }

    /// The preferred device.
    pub fn device_type(&self) -> (r: DevType)
        ensures
            r == self.device(),
    {
        self.dev
    }

    /// Where the task stands in its execution.
    pub fn exec_phase(&self) -> (r: ExecPhase)
        ensures
            r == self.phase(),
    {
        self.phase
    }

    /// The argument at index `i`.
    pub fn arg_at(&self, i: usize) -> (r: &TaskArgOrBuf<'a>)
        requires
            i < self.args().len(),
        ensures
            *r == self.args()[i as int],
    {
        &self.args[i]
    }

    fn first_buffer_from(&self, from: usize) -> (r: usize)
        requires
            from <= self.args().len(),
        ensures
            r == next_buffer(self.args(), from as int),
    {
        let mut i = from;
        while i < self.args.len()
            invariant
                from <= i <= self.args@.len(),
                next_buffer(self.args@, from as int) == next_buffer(self.args@, i as int),
            decreases self.args@.len() - i,
        {
            if let TaskArgOrBuf::RegBuf(_) = &self.args[i] {
                return i;
            }
            i = i + 1;
        }
        i
    }

    /// Starts executing: every argument must have been set. Buffer
    /// arguments are locked one after another, in argument order, before the
    /// task is submitted.
    pub fn begin_exec(&mut self) -> (a: ExecAction)
        requires
            old(self).wf(),
            old(self).phase() == ExecPhase::Built,
            old(self).set_count() == old(self).args().len(),
        ensures
            final(self).wf(),
            a == lock_from(old(self).args(), 0),
            final(self).phase() == phase_of(a),
            final(self).args() == old(self).args(),
            final(self).set_count() == old(self).set_count(),
    {
        let i = self.first_buffer_from(0);
        proof {
            lemma_next_buffer_bounds(self.args@, 0);
        }
        if i < self.args.len() {
            self.phase = ExecPhase::Locking(i);
            ExecAction::Lock(i)
        } else {
            self.phase = ExecPhase::Submitting;
            ExecAction::Submit
        }
    }

    /// Takes the outcome of a lock attempt of the buffer argument being
    /// locked: after `Busy` the same argument is tried again; otherwise the
    /// next buffer argument is locked, or the task is submitted.
    pub fn lock_result(&mut self, step: AllocStep) -> (a: ExecAction)
        requires
            old(self).wf(),
            old(self).phase() is Locking,
        ensures
            final(self).wf(),
            step == AllocStep::Busy ==> a == ExecAction::Lock(
                old(self).phase()->Locking_0,
            ),
            step != AllocStep::Busy ==> a == lock_from(
                old(self).args(),
                old(self).phase()->Locking_0 + 1,
            ),
            final(self).phase() == phase_of(a),
            final(self).args() == old(self).args(),
            final(self).set_count() == old(self).set_count(),
    {
        let i = match self.phase {
            ExecPhase::Locking(i) => i,
            _ => 0,
        };
        if step == AllocStep::Busy {
            return ExecAction::Lock(i);
        }
        let j = self.first_buffer_from(i + 1);
        proof {
            lemma_next_buffer_bounds(self.args@, i + 1);
        }
        if j < self.args.len() {
            self.phase = ExecPhase::Locking(j);
            ExecAction::Lock(j)
        } else {
            self.phase = ExecPhase::Submitting;
            ExecAction::Submit
        }
    }

    /// Each buffer argument before the one being locked (all of them, once
    /// the task is submitted) holds its range in `reg`.
    pub open spec fn locked_in(&self, reg: &Registration) -> bool {
        held_before(reg, self.args(), locked_upto(self.phase(), self.args().len() as int))
    }

    /// One lock attempt for the buffer argument being locked, against
    /// `reg`, followed by the step it leads to (as `lock_result`). Ranges
    /// that the earlier buffer arguments hold stay locked.
    pub fn lock_step(&mut self, reg: &mut Registration) -> (a: ExecAction)
        requires
            old(self).wf(),
            old(self).phase() is Locking,
            old(reg).wf(),
            old(reg).holds(&old(self).args()[old(self).phase()->Locking_0 as int]->RegBuf_0),
            ({
                let b = old(self).args()[old(self).phase()->Locking_0 as int]->RegBuf_0;
                b.byte_offset() + b.byte_len() <= old(reg).alloc_size(old(reg).eff(b.node() as int))
            }),
        ensures
            ({
                let i = old(self).phase()->Locking_0;
                let b = old(self).args()[i as int]->RegBuf_0;
                let e = old(reg).eff(b.node() as int);
                &&& final(self).wf()
                &&& final(reg).wf()
                &&& final(self).args() == old(self).args()
                &&& final(self).set_count() == old(self).set_count()
                &&& final(self).phase() == phase_of(a)
                &&& final(reg).refs() == old(reg).refs()
                &&& final(reg).num_slots() == old(reg).num_slots()
                &&& ranges_kept(&*old(reg), &*final(reg))
                &&& slots_kept_except(&*old(reg), &*final(reg), -1)
                &&& locks_kept_except(&*old(reg), &*final(reg), b.slot() as int, e)
                &&& (a == ExecAction::Lock(i) <==> !old(reg).is_held(b.slot() as int) && conflicts(
                    old(reg).locked(e),
                    b.byte_offset(),
                    (b.byte_offset() + b.byte_len()) as usize,
                ))
                &&& a != ExecAction::Lock(i) ==> a == lock_from(old(self).args(), i + 1)
                &&& a != ExecAction::Lock(i) ==> final(reg).is_held(b.slot() as int)
                &&& old(self).locked_in(&*old(reg)) ==> final(self).locked_in(&*final(reg))
            }),
    {
        let i = match self.phase {
            ExecPhase::Locking(i) => i,
            _ => 0,
        };
        let ghost reg0 = *reg;
        let step = self.buffer_arg(i).try_lock(reg);
        let a = self.lock_result(step);
        proof {
            let args = self.args@;
            lemma_next_buffer_bounds(args, i + 1);
            let b = args[i as int]->RegBuf_0;
            assert forall|j: int|
                0 <= j < locked_upto(self.phase, args.len() as int) && j < args.len()
                    && (#[trigger] args[j]) is RegBuf && held_before(&reg0, args, i as int)
                implies reg.holds(&args[j]->RegBuf_0) && reg.is_held(args[j]->RegBuf_0.slot() as int) by {
                if j < i {
                    let c = args[j]->RegBuf_0;
                    assert(reg0.is_held(c.slot() as int));
                    if c.slot() == b.slot() {
                        assert(reg0.is_held(b.slot() as int));
                    }
                } else {
                    lemma_next_buffer_bounds(args, i + 1);
                    assert(j == i);
                }
            }
        }
        a
    }

    /// Records that the task was submitted: it is polled from now on.
    pub fn submitted(&mut self) -> (a: ExecAction)
        requires
            old(self).wf(),
            old(self).phase() == ExecPhase::Submitting,
        ensures
            final(self).wf(),
            a == ExecAction::Poll,
            final(self).phase() == ExecPhase::Polling,
            final(self).args() == old(self).args(),
            final(self).set_count() == old(self).set_count(),
    {
        self.phase = ExecPhase::Polling;
        ExecAction::Poll
    }

    /// Takes the status a poll returned: the task is done once the runtime
    /// reports completion, and is polled again otherwise.
    pub fn polled(&mut self, status: ReqStatus) -> (a: ExecAction)
        requires
            old(self).wf(),
            old(self).phase() == ExecPhase::Polling,
        ensures
            final(self).wf(),
            a == (if status == ReqStatus::Completed {
                ExecAction::Done
            } else {
                ExecAction::Poll
            }),
            final(self).phase() == phase_of(a),
            final(self).args() == old(self).args(),
            final(self).set_count() == old(self).set_count(),
    {
        if status == ReqStatus::Completed {
            self.phase = ExecPhase::Completed;
            ExecAction::Done
        } else {
            ExecAction::Poll
        }
    }

    /// The handle of the buffer argument at index `i`.
    pub fn buffer_arg(&self, i: usize) -> (r: &RegisteredBuffer)
        requires
            i < self.args().len(),
            self.args()[i as int] is RegBuf,
        ensures
            self.args()[i as int] == TaskArgOrBuf::RegBuf(*r),
    {
        match &self.args[i] {
            TaskArgOrBuf::RegBuf(b) => b,
            TaskArgOrBuf::TaskArg(_) => unreached(),
        }
    }
    /// Takes the task apart, handing back the handles of its buffer
    /// arguments, in argument order, for the caller to drop.
    pub fn into_buffers(self) -> (r: Vec<RegisteredBuffer>)
        ensures
            r@ == buffers_of(self.args()),
    {
        let ghost all = self.args@;
        let mut args = self.args;
        let mut r: Vec<RegisteredBuffer> = Vec::new();
        while args.len() > 0
            invariant
                args@.len() <= all.len(),
                args@ == all.subrange(0, args@.len() as int),
                r@ == buffers_of(all.subrange(args@.len() as int, all.len() as int)),
            decreases args@.len(),
        {
            let k = args.len();
            let a = args.pop().unwrap();
            proof {
                let tail = all.subrange(k as int - 1, all.len() as int);
                assert(tail.drop_first() =~= all.subrange(k as int, all.len() as int));
                assert(tail[0] == a);
                assert(args@ =~= all.subrange(0, args@.len() as int));
            }
            match a {
                TaskArgOrBuf::RegBuf(b) => {
                    r.insert(0, b);
                    proof {
                        let tail = all.subrange(k as int - 1, all.len() as int);
                        assert(r@ =~= buffers_of(tail));
                    }
                },
                TaskArgOrBuf::TaskArg(_) => {},
            }
        }
        proof {
            assert(all.subrange(0, all.len() as int) =~= all);
        }
        r
    }
}

/// Two submitted tasks whose buffer arguments hold their ranges in the
/// same registration never pass two different handles with clashing ranges,
/// locked against the same allocator, to the runtime at once.
pub proof fn lemma_submitted_tasks_exclusive(
    reg: &Registration,
    t1: &Task,
    t2: &Task,
    i: int,
    j: int,
)
    requires
        reg.wf(),
        t1.locked_in(reg),
        t2.locked_in(reg),
        is_submitted(t1.phase()),
        is_submitted(t2.phase()),
        0 <= i < t1.args().len(),
        0 <= j < t2.args().len(),
        t1.args()[i] is RegBuf,
        t2.args()[j] is RegBuf,
        t1.args()[i]->RegBuf_0.slot() != t2.args()[j]->RegBuf_0.slot(),
    ensures
        ({
            let a = t1.args()[i]->RegBuf_0;
            let b = t2.args()[j]->RegBuf_0;
            reg.eff(a.node() as int) == reg.eff(b.node() as int) ==> !entry_clashes(
                a.byte_offset(),
                (a.byte_offset() + a.byte_len()) as usize,
                b.byte_offset(),
                (b.byte_offset() + b.byte_len()) as usize,
            )
        }),
{
    let a = t1.args()[i]->RegBuf_0;
    let b = t2.args()[j]->RegBuf_0;
    assert(reg.holds(&a) && reg.is_held(a.slot() as int));
    assert(reg.holds(&b) && reg.is_held(b.slot() as int));
    if reg.eff(a.node() as int) == reg.eff(b.node() as int) && entry_clashes(
        a.byte_offset(),
        (a.byte_offset() + a.byte_len()) as usize,
        b.byte_offset(),
        (b.byte_offset() + b.byte_len()) as usize,
    ) {
        lemma_overlapping_not_both_held(reg, a.slot() as int, b.slot() as int);
    }
}

} // verus!
