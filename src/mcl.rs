use crate::buffer::{Registration, RegisteredBuffer};
use crate::device::{same_info, DevInfo, DevType};
use crate::prog::{PrgType, Prog};
use crate::task::{is_unset, ExecPhase, Task, TaskArg};
use crate::transfer::Transfer;
use vstd::prelude::*;

verus! {

/// Flag passed to the runtime's initialisation: bind each worker thread to
/// its own core.
pub const MCL_SET_BIND_WORKERS: u64 = 0x01;

/// Settings for initialising the runtime environment.
pub struct MclEnvBuilder {
    num_workers: usize,
    flags: u64,
}

impl MclEnvBuilder {
    pub closed spec fn workers(&self) -> usize {
        self.num_workers
    }

    pub closed spec fn flag_bits(&self) -> u64 {
        self.flags
    }

    /// The default settings: one worker and no flags.
    pub fn new() -> (r: MclEnvBuilder)
        ensures
            r.workers() == 1,
            r.flag_bits() == 0,
    {
        MclEnvBuilder { num_workers: 1, flags: 0 }
    }

    /// The same settings with `workers` worker threads.
    pub fn num_workers(self, workers: usize) -> (r: MclEnvBuilder)
        requires
            workers > 0,
        ensures
            r.workers() == workers,
            r.flag_bits() == self.flag_bits(),
    {
        MclEnvBuilder { num_workers: workers, flags: self.flags }
    }

    /// The same settings with worker threads bound to their own cores.
    pub fn bind_workers(self) -> (r: MclEnvBuilder)
        ensures
            r.workers() == self.workers(),
            r.flag_bits() == self.flag_bits() | MCL_SET_BIND_WORKERS,
    {
        MclEnvBuilder { num_workers: self.num_workers, flags: self.flags | MCL_SET_BIND_WORKERS }
    }

    /// The environment these settings describe. The caller initialises the
    /// runtime with `init_workers` and `init_flags`, then records the
    /// devices it reports.
    pub fn initialize(self) -> (r: Mcl)
        ensures
            r.workers() == self.workers(),
            r.flag_bits() == self.flag_bits(),
            r.devices().len() == 0,
    {
        Mcl { num_workers: self.num_workers, flags: self.flags, devices: Vec::new() }
    }
}

/// An initialised environment: its settings and the devices the runtime
/// reported.
pub struct Mcl {
    num_workers: usize,
    flags: u64,
    devices: Vec<DevInfo>,
}

impl Mcl {
    pub closed spec fn workers(&self) -> usize {
        self.num_workers
    }

    pub closed spec fn flag_bits(&self) -> u64 {
        self.flags
    }

    pub closed spec fn devices(&self) -> Seq<DevInfo> {
        self.devices@
    }

    /// Number of worker threads to initialise the runtime with.
    pub fn init_workers(&self) -> (r: u64)
        ensures
            r == self.workers() as u64,
    {
        self.num_workers as u64
    }

    /// Flags to initialise the runtime with.
    pub fn init_flags(&self) -> (r: u64)
        ensures
            r == self.flag_bits(),
    {
        self.flags
    }

    /// Records a device that the runtime reported, unless the table already
    /// holds as many devices as a `u32` can count.
    pub fn record_device(&mut self, info: DevInfo) -> (added: bool)
        ensures
            added == (old(self).devices().len() < u32::MAX),
            added ==> final(self).devices() == old(self).devices().push(info),
            !added ==> final(self).devices() == old(self).devices(),
            final(self).workers() == old(self).workers(),
            final(self).flag_bits() == old(self).flag_bits(),
    {
        if self.devices.len() < u32::MAX as usize {
            self.devices.push(info);
            true
        } else {
            false
        }
    }

    /// A new program read from `prog_path`, of type `prog_type`, to be loaded
    /// later.
    pub fn create_prog(&self, prog_path: &str, prog_type: PrgType) -> (r: Prog)
        ensures
            r.path() == prog_path@,
            r.args() == Seq::<char>::empty(),
            r.kind() == prog_type,
    {
        Prog::from(prog_path, prog_type)
    }

    /// The description of device `id`.
    pub fn get_dev(&self, id: u32) -> (r: DevInfo)
        requires
            id < self.devices().len(),
        ensures
            same_info(&r, &self.devices()[id as int]),
    {
        self.devices[id as usize].duplicate()
    }

    /// Number of devices in the system.
    pub fn get_ndev(&self) -> (r: u32)
        requires
            self.devices().len() <= u32::MAX,
        ensures
            r == self.devices().len(),
    {
        self.devices.len() as u32
    }
    /// A new task for kernel `kernel_name`, which must be part of a loaded
    /// program, taking `nargs` arguments.
    pub fn task<'a>(&self, kernel_name: &str, nargs: usize) -> (r: Task<'a>)
        ensures
            r.wf(),
            r.kernel_view() == kernel_name@,
            r.args().len() == nargs,
            forall|i: int| 0 <= i < nargs ==> is_unset(#[trigger] r.args()[i]),
            r.set_count() == 0,
            r.local_size() is None,
            r.device() == DevType::ANY,
            r.phase() == ExecPhase::Built,
    {
        Task::new(kernel_name, nargs)
    }

    /// A new transfer of `nargs` arguments, asking the scheduler for
    /// `ncopies` copies.
    pub fn transfer<'a>(&self, nargs: usize, ncopies: usize) -> (r: Transfer<'a>)
        ensures
            r.wf(),
            r.args().len() == nargs,
            forall|i: int| 0 <= i < nargs ==> (#[trigger] r.args()[i]).data is Empty,
            r.set_count() == 0,
            r.copies() == ncopies,
            r.device() == DevType::ANY,
            r.phase() == ExecPhase::Built,
    {
        Transfer::new(nargs, ncopies)
    }

    /// Registers a resident buffer argument for use by many tasks, and
    /// returns the registration's shared state with its top-level handle.
    /// The caller registers the data with the runtime.
    pub fn register_buffer(&self, arg: TaskArg) -> (r: (Registration, RegisteredBuffer))
        requires
            arg.data is Buffer,
            arg.flags.buffer,
            arg.flags.resident,
            arg.orig_type_size > 0,
        ensures
            r.0.wf(),
            r.0.holds(&r.1),
            r.0.refs() == 1,
            r.0.elem() == arg.orig_type_size,
            r.0.num_nodes() == 1,
            r.0.node_parent(0) is None,
            !r.0.is_held(0),
            r.0.alloc_size(0) == arg.byte_len(),
            r.0.locked(0) == Map::<usize, usize>::empty(),
            r.1.byte_offset() == 0,
            r.1.byte_len() == arg.byte_len(),
    {
        let len = arg.len();
        Registration::register(len, arg.orig_type_size)
    }
}

} // verus!
