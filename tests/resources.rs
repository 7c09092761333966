use fleet_core::job::JobStatus::{Cancelled, Failed, Queued, Running, Starting, Succeeded};
use fleet_core::job::{can_transition, status_is_terminal};
use fleet_core::resources::{
    Architecture, Cpu, CpuManufacturer, Gpu, GpuManufacturer, GpuModel, Resources,
};

fn res(millicores: u32, memory_mb: u32, gpu: Option<Gpu>) -> Resources {
    Resources {
        memory_mb,
        cpu: Cpu { manufacturer: CpuManufacturer::Amd, architecture: Architecture::Arm64, millicores },
        gpu,
    }
}

fn gpu(model: GpuModel, count: u32, memory_mb: u32) -> Gpu {
    Gpu { manufacturer: GpuManufacturer::Nvidia, model, memory_mb, count }
}

#[test]
fn matching_and_surplus() {
    let node = res(8000, 16000, Some(gpu(GpuModel::L4, 2, 24000)));
    let need = res(4000, 8000, None);
    assert!(node.satisfies(&need));
    assert_eq!(node.surplus_over(&need), 4000 + 8000 + 2 + 24000);
    let need = res(4000, 8000, Some(gpu(GpuModel::L4, 1, 20000)));
    assert!(node.satisfies(&need));
    assert_eq!(node.surplus_over(&need), 4000 + 8000 + 1 + 4000);
    assert!(!node.satisfies(&res(4000, 8000, Some(gpu(GpuModel::L40S, 1, 1)))));
    assert!(!node.satisfies(&res(8001, 8000, None)));
    assert!(!node.satisfies(&res(1, 16001, None)));
    let mut other_arch = res(1, 1, None);
    other_arch.cpu.architecture = Architecture::X86_64;
    assert!(!node.satisfies(&other_arch));
    assert!(!res(8000, 16000, None).satisfies(&res(1, 1, Some(gpu(GpuModel::T4, 1, 1)))));
    let full = res(u32::MAX, u32::MAX, Some(gpu(GpuModel::B200, u32::MAX, u32::MAX)));
    assert_eq!(full.surplus_over(&res(0, 0, None)), 4 * (u32::MAX as u64));
}

#[test]
fn lifecycle_edges() {
    assert!(can_transition(Queued, Starting));
    assert!(can_transition(Queued, Cancelled));
    assert!(!can_transition(Queued, Running));
    assert!(can_transition(Starting, Running));
    assert!(can_transition(Running, Succeeded));
    assert!(can_transition(Running, Queued));
    assert!(!can_transition(Running, Starting));
    for t in [Succeeded, Failed, Cancelled] {
        assert!(status_is_terminal(t));
        for to in [Queued, Starting, Running, Succeeded, Failed, Cancelled] {
            assert!(!can_transition(t, to));
        }
    }
    assert!(!status_is_terminal(Running));
}
