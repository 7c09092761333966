//! Resource model: CPU/GPU configurations, node capacity and job demand,
//! and the matching policy between them.
use vstd::prelude::*;

verus! {

#[derive(Clone, Copy, Debug, PartialEq, Eq, Structural)]
pub enum CpuManufacturer {
    Intel,
    Amd,
    Aws,
}

#[derive(Clone, Copy, Debug, PartialEq, Eq, Structural)]
pub enum Architecture {
    Arm64,
    Arm64Mac,
    I386,
    X86_64,
    X86_64Mac,
}

#[derive(Clone, Copy, Debug, PartialEq, Eq, Structural)]
pub enum GpuManufacturer {
    Nvidia,
    Amd,
    Habana,
}

#[derive(Clone, Copy, Debug, PartialEq, Eq, Structural)]
pub enum GpuModel {
    RadeonProV520,
    GaudiHL205,
    A100,
    A10G,
    B200,
    H100,
    H200,
    L4,
    L40S,
    T4,
    T4g,
    V100,
}

/// A CPU configuration; `millicores` counts thousandths of a core.
#[derive(Clone, Copy, Debug, PartialEq, Eq, Structural)]
pub struct Cpu {
    pub manufacturer: CpuManufacturer,
    pub architecture: Architecture,
    pub millicores: u32,
}

/// A GPU configuration: `count` devices of one model.
#[derive(Clone, Copy, Debug, PartialEq, Eq, Structural)]
pub struct Gpu {
    pub manufacturer: GpuManufacturer,
    pub model: GpuModel,
    pub memory_mb: u32,
    pub count: u32,
}

/// Capacity of a node, or the demand of a job (same shape for both).
#[derive(Clone, Copy, Debug, PartialEq, Eq, Structural)]
pub struct Resources {
    pub memory_mb: u32,
    pub cpu: Cpu,
    pub gpu: Option<Gpu>,
}

/// CPU family must be the same; millicores are an "at least" comparison.
pub open spec fn cpu_meets(have: Cpu, need: Cpu) -> bool {
    &&& have.manufacturer == need.manufacturer
    &&& have.architecture == need.architecture
    &&& have.millicores >= need.millicores
}

/// No GPU demanded: any node qualifies. A GPU demanded: the node has one of
/// exactly that manufacturer and model, with at least the count and memory.
pub open spec fn gpu_meets(have: Option<Gpu>, need: Option<Gpu>) -> bool {
    match need {
        None => true,
        Some(n) => match have {
            None => false,
            Some(h) => {
                &&& h.manufacturer == n.manufacturer
                &&& h.model == n.model
                &&& h.count >= n.count
                &&& h.memory_mb >= n.memory_mb
            },
        },
    }
}

/// Capacity `have` can host demand `need`.
pub open spec fn meets(have: Resources, need: Resources) -> bool {
    &&& have.memory_mb >= need.memory_mb
    &&& cpu_meets(have.cpu, need.cpu)
    &&& gpu_meets(have.gpu, need.gpu)
}

/// GPU capacity left over (count plus memory); a GPU that was not asked
/// for is left over whole.
pub open spec fn gpu_surplus(have: Option<Gpu>, need: Option<Gpu>) -> int {
    match (have, need) {
        (Some(h), Some(n)) => (h.count - n.count) + (h.memory_mb - n.memory_mb),
        (Some(h), None) => h.count + h.memory_mb,
        _ => 0,
    }
}

/// The capacity left over when `need` is placed on `have`: the sum of the
/// millicore, memory and GPU surpluses.
pub open spec fn surplus(have: Resources, need: Resources) -> int {
    (have.cpu.millicores - need.cpu.millicores) + (have.memory_mb - need.memory_mb)
        + gpu_surplus(have.gpu, need.gpu)
}

impl Resources {
    /// Whether this capacity can host `need`.
    pub fn satisfies(&self, need: &Resources) -> (r: bool)
        ensures
            r == meets(*self, *need),
    {
        let cpu_ok = self.cpu.manufacturer == need.cpu.manufacturer
            && self.cpu.architecture == need.cpu.architecture
            && self.cpu.millicores >= need.cpu.millicores;
        let gpu_ok = match need.gpu {
            None => true,
            Some(n) => match self.gpu {
                None => false,
                Some(h) => h.manufacturer == n.manufacturer && h.model == n.model && h.count
                    >= n.count && h.memory_mb >= n.memory_mb,
            },
        };
        self.memory_mb >= need.memory_mb && cpu_ok && gpu_ok
    }

    /// The capacity left over when `need` is placed here.
    pub fn surplus_over(&self, need: &Resources) -> (r: u64)
        requires
            meets(*self, *need),
        ensures
            r as int == surplus(*self, *need),
    {
        let cpu = (self.cpu.millicores - need.cpu.millicores) as u64;
        let mem = (self.memory_mb - need.memory_mb) as u64;
        let gpu: u64 = match (self.gpu, need.gpu) {
            (Some(h), Some(n)) => (h.count - n.count) as u64 + (h.memory_mb - n.memory_mb) as u64,
            (Some(h), None) => h.count as u64 + h.memory_mb as u64,
            _ => 0,
        };
        cpu + mem + gpu
    }
}

} // verus!
