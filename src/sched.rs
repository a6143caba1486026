use vstd::prelude::*;

verus! {

/// Scheduling classes of the runtime's scheduler.
#[derive(Clone, Copy, Debug, PartialEq, Eq, Structural)]
pub enum SchedClass {
    /// First in first out scheduler
    Fifo,
    Fffs,
}

/// Policies for placing work on resources.
#[derive(Clone, Copy, Debug, PartialEq, Eq, Structural)]
pub enum ResourcePolicy {
    /// first fit
    Ff,
    /// round robin
    Rr,
    Delay,
    Hybrid,
    Lws,
}

/// Policies for evicting resident data.
#[derive(Clone, Copy, Debug, PartialEq, Eq, Structural)]
pub enum EvictPolicy {
    Lru,
}

/// The option text for a scheduling class.
pub open spec fn sched_text(c: SchedClass) -> Seq<char> {
    " -s "@ + match c {
        SchedClass::Fifo => "fifo "@,
        SchedClass::Fffs => "fffs "@,
    }
}

/// The option text for a resource policy.
pub open spec fn res_text(p: ResourcePolicy) -> Seq<char> {
    " -r "@ + match p {
        ResourcePolicy::Ff => "ff "@,
        ResourcePolicy::Rr => "rr "@,
        ResourcePolicy::Delay => "delay "@,
        ResourcePolicy::Hybrid => "hybrid "@,
        ResourcePolicy::Lws => "lws "@,
    }
}

/// The option text for an eviction policy.
pub open spec fn evict_text(p: EvictPolicy) -> Seq<char> {
    " -e "@ + match p {
        EvictPolicy::Lru => "lru "@,
    }
}

impl SchedClass {
    pub fn as_string(&self) -> (r: String)
        ensures
            r@ == sched_text(*self),
    {
        let mut out = String::from_str(" -s ");
        match self {
            SchedClass::Fifo => out.append("fifo "),
            SchedClass::Fffs => out.append("fffs "),
        }
        out
    }
}

impl ResourcePolicy {
    pub fn as_string(&self) -> (r: String)
        ensures
            r@ == res_text(*self),
    {
        let mut out = String::from_str(" -r ");
        match self {
            ResourcePolicy::Ff => out.append("ff "),
            ResourcePolicy::Rr => out.append("rr "),
            ResourcePolicy::Delay => out.append("delay "),
            ResourcePolicy::Hybrid => out.append("hybrid "),
            ResourcePolicy::Lws => out.append("lws "),
        }
        out
    }
}

impl EvictPolicy {
    pub fn as_string(&self) -> (r: String)
        ensures
            r@ == evict_text(*self),
    {
        let mut out = String::from_str(" -e ");
        match self {
            EvictPolicy::Lru => out.append("lru "),
        }
        out
    }
}

/// The argument line for starting the scheduler: the scheduling class, the
/// resource policy if one is given, then the eviction policy.
pub fn sched_args(
    sched_class: SchedClass,
    res_policy: Option<ResourcePolicy>,
    evict_policy: EvictPolicy,
) -> (r: String)
    ensures
        r@ == sched_text(sched_class) + match res_policy {
            Some(p) => res_text(p),
            None => Seq::<char>::empty(),
        } + evict_text(evict_policy),
{
    let mut args = String::new();
    let s = sched_class.as_string();
    args.append(s.as_str());
    if let Some(p) = res_policy {
        let r = p.as_string();
        args.append(r.as_str());
    }
    let e = evict_policy.as_string();
    args.append(e.as_str());
    proof {
        assert(args@ =~= sched_text(sched_class) + match res_policy {
            Some(p) => res_text(p),
            None => Seq::<char>::empty(),
        } + evict_text(evict_policy));
    }
    args
}

} // verus!
