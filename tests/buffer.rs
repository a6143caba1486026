use mcl_rs::{drop_handles, AllocStep, ElemBound, ElemRange, MclEnvBuilder, Registration, TaskArg};

#[test]
fn register_through_environment() {
    let env = MclEnvBuilder::new().initialize();
    let data = vec![0u8; 100];
    let (reg, buf) = env.register_buffer(TaskArg::inout_slice(&data, 1).resident(true).dynamic(true));
    assert_eq!(reg.ref_count(), 1);
    assert_eq!(buf.offset(), 0);
    assert_eq!(buf.len(), 100);
}

#[test]
fn sub_buffer_offsets_in_elements() {
    let (mut reg, buf) = Registration::register(400, 4);
    assert_eq!(buf.offset(), 0);
    assert_eq!(buf.len(), 100);
    let sub = buf.sub_buffer(&mut reg, (10..20).into());
    assert_eq!(sub.offset(), 10);
    assert_eq!(sub.len(), 10);
    assert_eq!(sub.u8_offset(), 40);
    assert_eq!(sub.u8_len(), 40);
    let subsub = sub.sub_buffer(&mut reg, (2..5).into());
    assert_eq!(subsub.offset(), 12);
    assert_eq!(subsub.len(), 3);
    assert_eq!(reg.ref_count(), 3);
}

#[test]
fn clone_shares_the_count() {
    let (mut reg, buf) = Registration::register(100, 1);
    let c = buf.clone_handle(&mut reg);
    assert_eq!(reg.ref_count(), 2);
    assert_eq!(c.offset(), buf.offset());
    assert_eq!(c.len(), buf.len());
    assert!(reg.holds_handle(&c));
    assert!(!c.drop_handle(&mut reg));
    assert_eq!(reg.ref_count(), 1);
    assert!(buf.drop_handle(&mut reg));
    assert_eq!(reg.ref_count(), 0);
}

#[test]
fn unregister_waits_for_last_handle() {
    let (mut reg, buf) = Registration::register(100, 1);
    let sub_buf = buf.sub_buffer(&mut reg, (10..20).into());
    let buf = buf.try_unregister(&mut reg);
    assert!(buf.is_err());
    let buf = buf.unwrap_err();
    assert_eq!(reg.ref_count(), 2);
    let fired = sub_buf.drop_handle(&mut reg);
    assert!(!fired);
    assert!(buf.try_unregister(&mut reg).is_ok());
    assert_eq!(reg.ref_count(), 0);
}

#[test]
fn invalidate_waits_for_last_handle() {
    let (mut reg, buf) = Registration::register(100, 1);
    let sub_buf = buf.sub_buffer(&mut reg, (10..20).into());
    assert!(!buf.try_invalidate(&reg));
    assert!(!sub_buf.drop_handle(&mut reg));
    assert!(buf.try_invalidate(&reg));
    assert_eq!(reg.ref_count(), 1);
}

#[test]
fn dropping_all_clones_unregisters_once() {
    let n = 8;
    let (mut reg, buf) = Registration::register(100, 1);
    let mut handles = Vec::new();
    for i in 0..n - 1 {
        if i % 2 == 0 {
            handles.push(buf.clone_handle(&mut reg));
        } else {
            handles.push(buf.sub_buffer(&mut reg, (i..i + 1).into()));
        }
    }
    handles.push(buf);
    assert_eq!(reg.ref_count(), n);
    let mut unregisters = 0;
    while let Some(h) = handles.pop() {
        if h.drop_handle(&mut reg) {
            unregisters += 1;
        }
    }
    assert_eq!(unregisters, 1);
    assert_eq!(reg.ref_count(), 0);
}

#[test]
fn disjoint_sub_buffers_lock_together() {
    let (mut reg, buf) = Registration::register(100, 1);
    let a = buf.sub_buffer(&mut reg, (0..50).into());
    let b = buf.sub_buffer(&mut reg, (50..100).into());
    assert!(reg.lock_in_bounds(&a));
    assert!(reg.lock_in_bounds(&b));
    assert_eq!(a.try_lock(&mut reg), AllocStep::Acquired);
    assert_eq!(b.try_lock(&mut reg), AllocStep::Acquired);
    assert_eq!(a.try_lock(&mut reg), AllocStep::Held);
    assert_eq!(b.try_lock(&mut reg), AllocStep::Held);
}

#[test]
fn overlapping_sub_buffers_take_turns() {
    let (mut reg, buf) = Registration::register(100, 1);
    let a = buf.sub_buffer(&mut reg, (10..20).into());
    let b = buf.sub_buffer(&mut reg, (15..25).into());
    let mut both_held = 0;
    let mut a_held = false;
    let mut b_held = false;
    for round in 0..4 {
        if !a_held {
            a_held = a.try_lock(&mut reg) != AllocStep::Busy;
        }
        if !b_held {
            b_held = b.try_lock(&mut reg) != AllocStep::Busy;
        }
        if a_held && b_held {
            both_held += 1;
        }
        assert!(a_held, "round {}", round);
        assert!(!b_held);
    }
    assert_eq!(both_held, 0);
    assert!(!a.drop_handle(&mut reg));
    assert_eq!(b.try_lock(&mut reg), AllocStep::Acquired);
}

#[test]
fn dropping_a_clone_keeps_the_lock() {
    let (mut reg, buf) = Registration::register(100, 1);
    let a = buf.sub_buffer(&mut reg, (10..20).into());
    let a2 = a.clone_handle(&mut reg);
    let other = buf.sub_buffer(&mut reg, (15..25).into());
    assert_eq!(a.try_lock(&mut reg), AllocStep::Acquired);
    assert_eq!(a.try_lock(&mut reg), AllocStep::Held);
    assert!(reg.is_locked(&a));
    assert!(!reg.is_locked(&a2));
    assert_eq!(a2.try_lock(&mut reg), AllocStep::Busy);
    assert_eq!(other.try_lock(&mut reg), AllocStep::Busy);
    assert!(!a2.drop_handle(&mut reg));
    assert!(reg.is_locked(&a));
    assert_eq!(other.try_lock(&mut reg), AllocStep::Busy);
    assert!(!a.drop_handle(&mut reg));
    assert_eq!(other.try_lock(&mut reg), AllocStep::Acquired);
}

#[test]
fn sub_buffer_bound_forms() {
    let (mut reg, buf) = Registration::register(400, 4);
    let incl = buf.sub_buffer(
        &mut reg,
        ElemRange { start: ElemBound::Included(10), end: ElemBound::Included(19) },
    );
    assert_eq!((incl.offset(), incl.len()), (10, 10));
    let excl = buf.sub_buffer(
        &mut reg,
        ElemRange { start: ElemBound::Excluded(9), end: ElemBound::Excluded(20) },
    );
    assert_eq!((excl.offset(), excl.len()), (10, 10));
    let from = buf.sub_buffer(
        &mut reg,
        ElemRange { start: ElemBound::Included(90), end: ElemBound::Unbounded },
    );
    assert_eq!((from.offset(), from.len()), (90, 10));
    let to = buf.sub_buffer(
        &mut reg,
        ElemRange { start: ElemBound::Unbounded, end: ElemBound::Excluded(5) },
    );
    assert_eq!((to.offset(), to.len()), (0, 5));
    let all = from.sub_buffer(
        &mut reg,
        ElemRange { start: ElemBound::Unbounded, end: ElemBound::Unbounded },
    );
    assert_eq!((all.offset(), all.len()), (90, 10));
    let empty = buf.sub_buffer(&mut reg, (7..7).into());
    assert_eq!((empty.offset(), empty.len()), (7, 0));
}

#[test]
fn drop_handles_counts_unregisters() {
    let (mut reg, buf) = Registration::register(100, 1);
    let a = buf.clone_handle(&mut reg);
    let b = buf.sub_buffer(&mut reg, (0..10).into());
    assert_eq!(drop_handles(&mut reg, vec![a, b]), 0);
    assert_eq!(reg.ref_count(), 1);
    assert_eq!(drop_handles(&mut reg, vec![buf]), 1);
    assert_eq!(reg.ref_count(), 0);
}

#[test]
fn top_level_and_sub_buffer_share_an_allocator() {
    let (mut reg, buf) = Registration::register(100, 1);
    let sub = buf.sub_buffer(&mut reg, (0..10).into());
    assert_eq!(buf.try_lock(&mut reg), AllocStep::Acquired);
    assert_eq!(sub.try_lock(&mut reg), AllocStep::Busy);
}

#[test]
fn nested_sub_buffer_outside_parent_allocator() {
    let (mut reg, buf) = Registration::register(100, 1);
    let sub = buf.sub_buffer(&mut reg, (50..100).into());
    let inner = sub.sub_buffer(&mut reg, (10..20).into());
    assert_eq!(inner.offset(), 60);
    assert!(!reg.lock_in_bounds(&inner));
    let low = buf.sub_buffer(&mut reg, (0..50).into());
    let low_inner = low.sub_buffer(&mut reg, (10..20).into());
    assert!(reg.lock_in_bounds(&low_inner));
    assert_eq!(low_inner.try_lock(&mut reg), AllocStep::Acquired);
}

#[test]
fn stale_handle_is_not_held() {
    let (mut reg, buf) = Registration::register(100, 1);
    let (other, other_buf) = Registration::register(10, 1);
    assert!(reg.holds_handle(&buf));
    assert!(!reg.holds_handle(&other_buf));
    let sub = buf.sub_buffer(&mut reg, (1..2).into());
    assert!(!other.holds_handle(&sub));
}
