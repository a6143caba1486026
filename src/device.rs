use vstd::prelude::*;

verus! {

/// The kind of device a task prefers to run on.
#[allow(non_camel_case_types)]
#[derive(Clone, Copy, Debug, PartialEq, Eq, Structural)]
pub enum DevType {
    NONE,
    CPU,
    GPU,
    FPGA,
    DFT,
    ANY,
}

/// Description of one computing device, as the runtime reports it.
#[derive(Debug)]
pub struct DevInfo {
    /// Device ID
    pub id: u64,
    /// Device name
    pub name: String,
    /// Device vendor
    pub vendor: String,
    /// Device class 0: None, 1: CPU, 2: GPU
    pub class: u64,
    /// Device status
    pub status: u64,
    /// Device total amount of memory available
    pub mem_size: u64,
    /// Device number of processing elements (PEs)
    pub pes: u64,
    /// Device number of dimensions
    pub ndims: u64,
    /// Device workgroup max size
    pub wgsize: u64,
    /// Device max size per dimension
    pub wisize: Vec<usize>,
}

/// `a` and `b` describe the same device in every field.
pub open spec fn same_info(a: &DevInfo, b: &DevInfo) -> bool {
    &&& a.id == b.id
    &&& a.name@ == b.name@
    &&& a.vendor@ == b.vendor@
    &&& a.class == b.class
    &&& a.status == b.status
    &&& a.mem_size == b.mem_size
    &&& a.pes == b.pes
    &&& a.ndims == b.ndims
    &&& a.wgsize == b.wgsize
    &&& a.wisize@ == b.wisize@
}

impl DevInfo {
    /// A copy of this description.
    pub fn duplicate(&self) -> (r: DevInfo)
        ensures
            same_info(&r, self),
    {
        let mut wisize: Vec<usize> = Vec::new();
        let mut i: usize = 0;
        while i < self.wisize.len()
            invariant
                i <= self.wisize.len(),
                wisize@ == self.wisize@.subrange(0, i as int),
            decreases self.wisize.len() - i,
        {
            wisize.push(self.wisize[i]);
            i = i + 1;
            proof {
                assert(wisize@ =~= self.wisize@.subrange(0, i as int));
            }
        }
        proof {
            assert(wisize@ =~= self.wisize@);
        }
        DevInfo {
            id: self.id,
            name: self.name.clone(),
            vendor: self.vendor.clone(),
            class: self.class,
            status: self.status,
            mem_size: self.mem_size,
            pes: self.pes,
            ndims: self.ndims,
            wgsize: self.wgsize,
            wisize,
        }
    }
}

} // verus!
