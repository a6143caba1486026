use mcl_rs::{
    sched_args, EvictPolicy, MclEnvBuilder, PrgType, ResourcePolicy, SchedClass,
    MCL_SET_BIND_WORKERS,
};

#[test]
fn builder_defaults() {
    let env = MclEnvBuilder::new().initialize();
    assert_eq!(env.init_workers(), 1);
    assert_eq!(env.init_flags(), 0);
}

#[test]
fn builder_workers_and_binding() {
    let env = MclEnvBuilder::new().num_workers(10).bind_workers().initialize();
    assert_eq!(env.init_workers(), 10);
    assert_eq!(env.init_flags(), MCL_SET_BIND_WORKERS);
    assert_eq!(env.init_flags(), 1);
}

#[test]
fn prog_with_compile_args() {
    let env = MclEnvBuilder::new().initialize();
    let prog = env.create_prog("my_path", PrgType::Src);
    assert_eq!(prog.prog_path(), "my_path");
    assert_eq!(prog.compile_args(), "");
    let prog = prog.with_compile_args("-D MYDEF");
    assert_eq!(prog.prog_path(), "my_path");
    assert_eq!(prog.compile_args(), "-D MYDEF");
    assert_eq!(prog.program_type(), PrgType::Src);
}

#[test]
fn scheduler_option_text() {
    assert_eq!(SchedClass::Fifo.as_string(), " -s fifo ");
    assert_eq!(SchedClass::Fffs.as_string(), " -s fffs ");
    assert_eq!(ResourcePolicy::Ff.as_string(), " -r ff ");
    assert_eq!(ResourcePolicy::Rr.as_string(), " -r rr ");
    assert_eq!(ResourcePolicy::Delay.as_string(), " -r delay ");
    assert_eq!(ResourcePolicy::Hybrid.as_string(), " -r hybrid ");
    assert_eq!(ResourcePolicy::Lws.as_string(), " -r lws ");
    assert_eq!(EvictPolicy::Lru.as_string(), " -e lru ");
}

#[test]
fn scheduler_argument_line() {
    let line = sched_args(SchedClass::Fifo, Some(ResourcePolicy::Ff), EvictPolicy::Lru);
    assert_eq!(line, " -s fifo  -r ff  -e lru ");
    let line = sched_args(SchedClass::Fffs, None, EvictPolicy::Lru);
    assert_eq!(line, " -s fffs  -e lru ");
}
