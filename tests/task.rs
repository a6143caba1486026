use mcl_rs::{
    drop_handles, AllocStep, DevType, ExecAction, ExecPhase, MclEnvBuilder, Registration, RegisteredBuffer,
    ReqStatus, Task, TaskArg, TaskArgData, TaskArgOrBuf,
};

#[test]
fn builder_records_arguments() {
    let env = MclEnvBuilder::new().initialize();
    let data = vec![1u8, 2, 3, 4];
    let scalar = [9u8; 4];
    let t = env
        .task("my_kernel", 2)
        .arg(TaskArg::input_slice(&data, 1))
        .arg(TaskArg::input_scalar(&scalar, 4))
        .lwsize([1, 1, 1])
        .dev(DevType::CPU);
    assert_eq!(t.kernel_name(), "my_kernel");
    assert_eq!(t.num_args(), 2);
    assert_eq!(t.num_set(), 2);
    assert_eq!(t.local_work_size(), Some([1, 1, 1]));
    assert_eq!(t.device_type(), DevType::CPU);
    assert_eq!(t.shared_id(), None);
    match t.arg_at(1) {
        TaskArgOrBuf::TaskArg(a) => {
            assert!(matches!(a.data, TaskArgData::Scalar(_)));
            assert!(a.flags.input && a.flags.scalar);
            assert_eq!(a.len(), 4);
        }
        TaskArgOrBuf::RegBuf(_) => panic!("expected plain data"),
    }
}

#[test]
fn argument_options() {
    let data = vec![0u8; 8];
    let a = TaskArg::output_slice(&data, 4).resident(true).dynamic(true).read_only(true);
    assert!(a.flags.output && a.flags.buffer && a.flags.resident && a.flags.dynamic);
    assert!(a.flags.rdonly && !a.flags.wronly && !a.flags.input);
    let a = a.resident(false).done(true).invalid(true).write_only(true);
    assert!(!a.flags.resident && a.flags.done && a.flags.invalid && a.flags.wronly);
    let b = TaskArg::inout_scalar(&data[0..4], 4);
    assert!(b.flags.input && b.flags.output && b.flags.buffer);
    assert!(matches!(b.data, TaskArgData::Buffer(_)));
    let c = TaskArg::output_scalar(&data[0..4], 4);
    assert!(matches!(c.data, TaskArgData::Buffer(_)));
    assert_eq!(TaskArg::empty().len(), 0);
}

#[test]
fn exec_without_buffers_submits_then_polls() {
    let data = vec![1u8; 4];
    let mut t = Task::new("k", 1).arg(TaskArg::input_slice(&data, 1));
    assert_eq!(t.begin_exec(), ExecAction::Submit);
    assert_eq!(t.exec_phase(), ExecPhase::Submitting);
    assert_eq!(t.submitted(), ExecAction::Poll);
    assert_eq!(t.polled(ReqStatus::Pending), ExecAction::Poll);
    assert_eq!(t.polled(ReqStatus::Allocated), ExecAction::Poll);
    assert_eq!(t.polled(ReqStatus::InProgress), ExecAction::Poll);
    assert_eq!(t.polled(ReqStatus::Finishing), ExecAction::Poll);
    assert_eq!(t.polled(ReqStatus::Unknown), ExecAction::Poll);
    assert_eq!(t.polled(ReqStatus::Completed), ExecAction::Done);
    assert_eq!(t.exec_phase(), ExecPhase::Completed);
}

#[test]
fn exec_locks_buffers_in_argument_order() {
    let (mut reg, buf) = Registration::register(100, 1);
    let a = buf.sub_buffer(&mut reg, (0..10).into());
    let b = buf.sub_buffer(&mut reg, (10..20).into());
    let data = vec![1u8; 4];
    let mut t = Task::new("k", 3)
        .arg_buffer(a)
        .arg(TaskArg::input_slice(&data, 1))
        .arg_buffer(b);
    assert_eq!(t.begin_exec(), ExecAction::Lock(0));
    assert_eq!(t.lock_result(AllocStep::Busy), ExecAction::Lock(0));
    let step = t.buffer_arg(0).try_lock(&mut reg);
    assert_eq!(step, AllocStep::Acquired);
    assert_eq!(t.lock_result(step), ExecAction::Lock(2));
    let step = t.buffer_arg(2).try_lock(&mut reg);
    assert_eq!(t.lock_result(step), ExecAction::Submit);
    assert_eq!(t.submitted(), ExecAction::Poll);
    assert_eq!(t.polled(ReqStatus::Completed), ExecAction::Done);
    let handles = t.into_buffers();
    assert_eq!(handles.len(), 2);
    assert_eq!(handles[0].offset(), 0);
    assert_eq!(handles[1].offset(), 10);
    for h in handles {
        assert!(!h.drop_handle(&mut reg));
    }
    assert!(buf.drop_handle(&mut reg));
}

fn run_batch(reg: &mut Registration, tasks: &mut Vec<Task<'static>>) -> (usize, usize) {
    let mut actions: Vec<ExecAction> = tasks.iter_mut().map(|t| t.begin_exec()).collect();
    let mut done = 0;
    let mut overlaps = 0;
    let mut in_flight: Vec<(usize, usize)> = Vec::new();
    while done < tasks.len() {
        for (i, t) in tasks.iter_mut().enumerate() {
            let next = match actions[i] {
                ExecAction::Lock(_) => t.lock_step(reg),
                ExecAction::Submit => {
                    let h: &RegisteredBuffer = t.buffer_arg(0);
                    let range = (h.u8_offset(), h.u8_offset() + h.u8_len());
                    if in_flight.iter().any(|&(s, e)| s < range.1 && range.0 < e) {
                        overlaps += 1;
                    }
                    in_flight.push(range);
                    t.submitted()
                }
                ExecAction::Poll => {
                    let r = t.polled(ReqStatus::Completed);
                    done += 1;
                    r
                }
                ExecAction::Done => ExecAction::Done,
            };
            actions[i] = next;
        }
    }
    (done, overlaps)
}

#[test]
fn ten_disjoint_tasks_complete_together() {
    let (mut reg, buf) = Registration::register(100, 1);
    let mut tasks: Vec<Task<'static>> = Vec::new();
    for i in 0..10 {
        let sub = buf.sub_buffer(&mut reg, (i * 10..i * 10 + 10).into());
        tasks.push(Task::new("kernel", 1).arg_buffer(sub));
    }
    let (done, overlaps) = run_batch(&mut reg, &mut tasks);
    assert_eq!(done, 10);
    assert_eq!(overlaps, 0);
    for t in tasks.iter() {
        assert_eq!(t.exec_phase(), ExecPhase::Completed);
    }
    let mut unregisters = 0;
    for t in tasks {
        for h in t.into_buffers() {
            if h.drop_handle(&mut reg) {
                unregisters += 1;
            }
        }
    }
    assert!(buf.drop_handle(&mut reg));
    assert_eq!(unregisters, 0);
}

#[test]
fn transfer_submits_then_polls() {
    let env = MclEnvBuilder::new().initialize();
    let data = vec![5u8; 16];
    let mut tr = env
        .transfer(1, 2)
        .arg(TaskArg::input_slice(&data, 4))
        .dev(DevType::GPU);
    assert_eq!(tr.num_args(), 1);
    assert_eq!(tr.num_set(), 1);
    assert_eq!(tr.num_copies(), 2);
    assert_eq!(tr.device_type(), DevType::GPU);
    assert_eq!(tr.begin_exec(), ExecAction::Submit);
    assert_eq!(tr.submitted(), ExecAction::Poll);
    assert_eq!(tr.polled(ReqStatus::InProgress), ExecAction::Poll);
    assert_eq!(tr.polled(ReqStatus::Completed), ExecAction::Done);
}

#[test]
fn binary_kernel_properties() {
    let p = mcl_rs::TaskBinProps::new(2, 5, "DLA_MNIST");
    assert_eq!(p.get_devices(), 2);
    assert_eq!(p.get_types(), 5);
    assert_eq!(p.get_name(), "DLA_MNIST");
}

#[test]
fn overlapping_tasks_run_one_after_another() {
    let env = MclEnvBuilder::new().initialize();
    let (mut reg, buf) = Registration::register(100, 1);
    let s1 = buf.sub_buffer(&mut reg, (10..20).into());
    let s2 = buf.sub_buffer(&mut reg, (15..25).into());
    let mut t1 = env.task("k", 1).arg_buffer(s1);
    let mut t2 = env.task("k", 1).arg_buffer(s2);
    assert_eq!(t1.begin_exec(), ExecAction::Lock(0));
    assert_eq!(t2.begin_exec(), ExecAction::Lock(0));
    assert_eq!(t1.lock_step(&mut reg), ExecAction::Submit);
    let mut both_submitted = 0;
    for _ in 0..5 {
        assert_eq!(t2.lock_step(&mut reg), ExecAction::Lock(0));
        if t1.exec_phase() != ExecPhase::Locking(0) && t2.exec_phase() != ExecPhase::Locking(0) {
            both_submitted += 1;
        }
    }
    assert_eq!(t1.submitted(), ExecAction::Poll);
    assert_eq!(t1.polled(ReqStatus::Pending), ExecAction::Poll);
    assert_eq!(t2.lock_step(&mut reg), ExecAction::Lock(0));
    assert_eq!(t1.polled(ReqStatus::Completed), ExecAction::Done);
    assert_eq!(drop_handles(&mut reg, t1.into_buffers()), 0);
    assert_eq!(t2.lock_step(&mut reg), ExecAction::Submit);
    assert_eq!(t2.submitted(), ExecAction::Poll);
    assert_eq!(t2.polled(ReqStatus::Completed), ExecAction::Done);
    assert_eq!(both_submitted, 0);
    assert_eq!(drop_handles(&mut reg, t2.into_buffers()), 0);
    assert!(buf.drop_handle(&mut reg));
}
