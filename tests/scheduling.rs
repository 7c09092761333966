use fleet_core::aggregate::{ClusterDetails, ClusterSummary};
use fleet_core::fleet::{Fleet, FleetConfig, FleetError};
use fleet_core::reconciler::{Reconciliation, Report};
use fleet_core::job::{JobStatus, Outcome};
use fleet_core::node::NodeStatus;
use fleet_core::resources::{
    Architecture, Cpu, CpuManufacturer, Gpu, GpuManufacturer, GpuModel, Resources,
};

const CLUSTER: u128 = 7;
const GRACE: u64 = 30_000;
const STALE: u64 = 90_000;

fn config() -> FleetConfig {
    FleetConfig { staleness_threshold_ms: STALE, grace_period_ms: GRACE }
}

fn cpu(millicores: u32) -> Cpu {
    Cpu { manufacturer: CpuManufacturer::Intel, architecture: Architecture::X86_64, millicores }
}

fn plain(millicores: u32, memory_mb: u32) -> Resources {
    Resources { memory_mb, cpu: cpu(millicores), gpu: None }
}

fn with_gpu(millicores: u32, memory_mb: u32, model: GpuModel, count: u32) -> Resources {
    Resources {
        memory_mb,
        cpu: cpu(millicores),
        gpu: Some(Gpu { manufacturer: GpuManufacturer::Nvidia, model, memory_mb: 16_000, count }),
    }
}

fn submit(f: &mut Fleet, id: u128, need: Resources, now: u64) {
    f.submit(id, format!("job-{id}"), String::from("{}"), need, None, now).unwrap();
}

fn busy_iff_assigned(f: &Fleet, id: u128) -> bool {
    let n = f.get_node(id).unwrap();
    (n.status == NodeStatus::Busy) == n.assigned_job_id.is_some()
}

#[test]
fn single_node_job_runs_to_success() {
    let mut f = Fleet::new(config());
    f.register_node(1, CLUSTER, plain(8000, 16000), 1000).unwrap();
    submit(&mut f, 100, plain(4000, 8000), 1000);
    assert_eq!(f.job_status(100), Some(JobStatus::Queued));

    assert_eq!(f.schedule(100, CLUSTER, 2000), Some(1));
    assert_eq!(f.job_status(100), Some(JobStatus::Starting));
    assert_eq!(f.job_node(100), Some(1));
    let n = f.get_node(1).unwrap();
    assert_eq!(n.status, NodeStatus::Busy);
    assert_eq!(n.assigned_job_id, Some(100));
    assert!(busy_iff_assigned(&f, 1));

    assert_eq!(f.ingest_heartbeat(1, Report::Running(100), 3000), Ok(Reconciliation::Confirmed(100)));
    assert_eq!(f.job_status(100), Some(JobStatus::Running));
    assert_eq!(f.get_node(1).unwrap().reported_job_id, Some(100));

    assert_eq!(
        f.ingest_heartbeat(1, Report::Finished(100, Outcome::Succeeded), 4000),
        Ok(Reconciliation::Completed(100))
    );
    assert_eq!(f.job_status(100), Some(JobStatus::Succeeded));
    assert_eq!(f.job_node(100), None);
    let n = f.get_node(1).unwrap();
    assert_eq!(n.status, NodeStatus::Available);
    assert_eq!(n.assigned_job_id, None);
    assert!(busy_iff_assigned(&f, 1));
}

#[test]
fn gpu_job_finds_no_node_without_gpu() {
    let mut f = Fleet::new(config());
    f.register_node(1, CLUSTER, plain(8000, 16000), 1000).unwrap();
    submit(&mut f, 100, with_gpu(1000, 1000, GpuModel::A100, 1), 1000);
    assert_eq!(f.schedule(100, CLUSTER, 2000), None);
    assert_eq!(f.job_status(100), Some(JobStatus::Queued));
    assert_eq!(f.get_node(1).unwrap().status, NodeStatus::Available);
}

#[test]
fn lost_assignment_is_requeued_and_placed_elsewhere() {
    let mut f = Fleet::new(config());
    f.register_node(1, CLUSTER, plain(8000, 16000), 1000).unwrap();
    submit(&mut f, 100, plain(4000, 8000), 1000);
    assert_eq!(f.schedule(100, CLUSTER, 1000), Some(1));
    // A second node joins and the first keeps reporting something else.
    f.register_node(2, CLUSTER, plain(16000, 32000), 2000).unwrap();
    assert_eq!(f.ingest_heartbeat(1, Report::Running(555), 2000), Ok(Reconciliation::Pending));
    assert_eq!(f.job_status(100), Some(JobStatus::Starting));
    assert_eq!(
        f.ingest_heartbeat(1, Report::Running(555), 1000 + GRACE + 1),
        Ok(Reconciliation::Requeued(100))
    );
    assert_eq!(f.job_status(100), Some(JobStatus::Queued));
    assert_eq!(f.job_node(100), None);
    let n = f.get_node(1).unwrap();
    assert_eq!(n.status, NodeStatus::Available);
    assert_eq!(n.assigned_job_id, None);
    // Only once: the same report again is a stray, nothing is requeued.
    assert_eq!(
        f.ingest_heartbeat(1, Report::Running(555), 1000 + GRACE + 2),
        Ok(Reconciliation::Stray(555))
    );
    // Node 1 fits tighter, but let it fall silent past the staleness threshold.
    f.update_heartbeat(2, None, 1000 + STALE + 10).unwrap();
    assert_eq!(f.schedule(100, CLUSTER, 1000 + GRACE + 3 + STALE), Some(2));
    assert_eq!(f.job_status(100), Some(JobStatus::Starting));
    assert_eq!(f.job_node(100), Some(2));
}

#[test]
fn silent_node_assignment_is_reclaimed_once() {
    let mut f = Fleet::new(config());
    f.register_node(1, CLUSTER, plain(8000, 16000), 1000).unwrap();
    submit(&mut f, 100, plain(4000, 8000), 1000);
    assert_eq!(f.schedule(100, CLUSTER, 1000), Some(1));
    assert_eq!(f.reclaim_if_lost(1, 1000 + GRACE), Ok(None));
    assert_eq!(f.job_status(100), Some(JobStatus::Starting));
    assert_eq!(f.reclaim_if_lost(1, 1000 + GRACE + 1), Ok(Some(100)));
    assert_eq!(f.job_status(100), Some(JobStatus::Queued));
    assert_eq!(f.get_node(1).unwrap().status, NodeStatus::Available);
    assert_eq!(f.reclaim_if_lost(1, 1000 + GRACE + 1), Ok(None));
    assert_eq!(f.reclaim_if_lost(9, 1000), Err(FleetError::UnknownNode));
}

#[test]
fn confirmed_assignment_is_not_reclaimed() {
    let mut f = Fleet::new(config());
    f.register_node(1, CLUSTER, plain(8000, 16000), 1000).unwrap();
    submit(&mut f, 100, plain(4000, 8000), 1000);
    f.schedule(100, CLUSTER, 1000).unwrap();
    f.ingest_heartbeat(1, Report::Running(100), 20_000).unwrap();
    assert_eq!(f.reclaim_if_lost(1, 20_000 + GRACE), Ok(None));
    assert_eq!(f.job_status(100), Some(JobStatus::Running));
}

#[test]
fn repeated_terminal_report_changes_nothing() {
    let mut f = Fleet::new(config());
    f.register_node(1, CLUSTER, plain(8000, 16000), 1000).unwrap();
    submit(&mut f, 100, plain(4000, 8000), 1000);
    f.schedule(100, CLUSTER, 1000).unwrap();
    let report = Report::Finished(100, Outcome::Failed);
    assert_eq!(f.ingest_heartbeat(1, report, 5000), Ok(Reconciliation::Completed(100)));
    let node_once = f.get_node(1).unwrap();
    assert_eq!(f.ingest_heartbeat(1, report, 5000), Ok(Reconciliation::InSync));
    assert_eq!(f.get_node(1).unwrap(), node_once);
    assert_eq!(f.job_status(100), Some(JobStatus::Failed));
    assert_eq!(f.mark_terminal(100, Outcome::Failed, 6000), Ok(()));
    assert_eq!(f.mark_terminal(100, Outcome::Succeeded, 6000), Err(FleetError::InvalidTransition));
}

#[test]
fn best_fit_prefers_least_surplus_then_oldest_heartbeat() {
    let mut f = Fleet::new(config());
    f.register_node(1, CLUSTER, plain(16000, 32000), 1000).unwrap();
    f.register_node(2, CLUSTER, plain(6000, 9000), 3000).unwrap();
    f.register_node(3, CLUSTER, plain(6000, 9000), 2000).unwrap();
    f.register_node(4, CLUSTER, plain(2000, 64000), 1000).unwrap();
    f.register_node(5, 8, plain(4000, 8000), 1000).unwrap();
    let need = plain(4000, 8000);
    assert_eq!(f.best_fit(CLUSTER, &need, 3000), Some(3));
    submit(&mut f, 100, need, 3000);
    assert_eq!(f.schedule(100, CLUSTER, 3000), Some(3));
    submit(&mut f, 101, need, 3000);
    assert_eq!(f.schedule(101, CLUSTER, 3000), Some(2));
    submit(&mut f, 102, need, 3000);
    assert_eq!(f.schedule(102, CLUSTER, 3000), Some(1));
    submit(&mut f, 103, need, 3000);
    assert_eq!(f.schedule(103, CLUSTER, 3000), None);
    assert_eq!(f.job_status(103), Some(JobStatus::Queued));
}

#[test]
fn gpu_match_is_exact_on_model() {
    let mut f = Fleet::new(config());
    f.register_node(1, CLUSTER, with_gpu(8000, 16000, GpuModel::H100, 8), 1000).unwrap();
    f.register_node(2, CLUSTER, with_gpu(8000, 16000, GpuModel::A100, 1), 1000).unwrap();
    let need = with_gpu(1000, 1000, GpuModel::A100, 2);
    assert_eq!(f.best_fit(CLUSTER, &need, 1000), None);
    let need = with_gpu(1000, 1000, GpuModel::A100, 1);
    assert_eq!(f.best_fit(CLUSTER, &need, 1000), Some(2));
    let need = with_gpu(1000, 1000, GpuModel::H100, 4);
    assert_eq!(f.best_fit(CLUSTER, &need, 1000), Some(1));
}

#[test]
fn stale_nodes_are_not_available() {
    let mut f = Fleet::new(config());
    f.register_node(1, CLUSTER, plain(8000, 16000), 1000).unwrap();
    f.register_node(2, CLUSTER, plain(8000, 16000), 50_000).unwrap();
    f.register_node(3, 8, plain(8000, 16000), 50_000).unwrap();
    let mut ids = f.list_available(CLUSTER, 1000 + STALE);
    ids.sort();
    assert_eq!(ids, vec![1, 2]);
    assert_eq!(f.list_available(CLUSTER, 1000 + STALE + 1), vec![2]);
    submit(&mut f, 100, plain(1000, 1000), 1000);
    f.schedule(100, CLUSTER, 50_000).unwrap();
    assert_eq!(f.list_available(CLUSTER, 50_000).len(), 1);
}

#[test]
fn registry_errors() {
    let mut f = Fleet::new(config());
    f.register_node(1, CLUSTER, plain(8000, 16000), 1000).unwrap();
    assert_eq!(f.register_node(1, CLUSTER, plain(1, 1), 1000), Err(FleetError::DuplicateNode));
    assert_eq!(f.get_node(1).unwrap().capacity, plain(8000, 16000));
    assert_eq!(f.get_node(2), None);
    assert_eq!(f.update_heartbeat(2, None, 1), Err(FleetError::UnknownNode));
    assert_eq!(f.ingest_heartbeat(2, Report::Idle, 1), Err(FleetError::UnknownNode));
    submit(&mut f, 100, plain(1, 1), 1000);
    assert_eq!(
        f.submit(100, String::from("again"), String::new(), plain(1, 1), Some(3), 1000),
        Err(FleetError::DuplicateJob)
    );
    assert_eq!(f.mark_running(101, 1), Err(FleetError::UnknownJob));
    assert_eq!(f.mark_starting(101, 1, 1), Err(FleetError::UnknownJob));
    assert_eq!(f.mark_starting(100, 2, 1), Err(FleetError::UnknownNode));
    assert_eq!(f.cancel(101, 1), Err(FleetError::UnknownJob));
}

#[test]
fn older_heartbeat_is_ignored() {
    let mut f = Fleet::new(config());
    f.register_node(1, CLUSTER, plain(8000, 16000), 1000).unwrap();
    f.update_heartbeat(1, Some(5), 5000).unwrap();
    f.update_heartbeat(1, Some(6), 4000).unwrap();
    let n = f.get_node(1).unwrap();
    assert_eq!(n.heartbeat_timestamp, 5000);
    assert_eq!(n.reported_job_id, Some(5));
    assert_eq!(f.ingest_heartbeat(1, Report::Running(7), 4500), Ok(Reconciliation::Ignored));
    assert_eq!(f.get_node(1).unwrap(), n);
}

#[test]
fn lifecycle_transitions_are_checked() {
    let mut f = Fleet::new(config());
    f.register_node(1, CLUSTER, plain(8000, 16000), 1000).unwrap();
    f.register_node(2, CLUSTER, plain(8000, 16000), 1000).unwrap();
    submit(&mut f, 100, plain(1000, 1000), 1000);
    assert_eq!(f.mark_running(100, 1000), Err(FleetError::InvalidTransition));
    assert_eq!(f.mark_terminal(100, Outcome::Succeeded, 1000), Err(FleetError::InvalidTransition));
    assert_eq!(f.mark_starting(100, 1, 1000), Ok(()));
    assert_eq!(f.mark_starting(100, 2, 1000), Err(FleetError::InvalidTransition));
    submit(&mut f, 101, plain(1000, 1000), 1000);
    assert_eq!(f.mark_starting(101, 1, 1000), Err(FleetError::InvalidTransition));
    assert_eq!(f.mark_running(100, 1000), Ok(()));
    assert_eq!(f.mark_running(100, 1000), Err(FleetError::InvalidTransition));
    assert_eq!(f.mark_terminal(100, Outcome::Succeeded, 2000), Ok(()));
    assert_eq!(f.job_status(100), Some(JobStatus::Succeeded));
    assert_eq!(f.get_node(1).unwrap().status, NodeStatus::Available);
    assert_eq!(f.cancel(100, 2000), Err(FleetError::InvalidTransition));
    assert_eq!(f.mark_starting(100, 2, 2000), Err(FleetError::InvalidTransition));
}

#[test]
fn cancel_frees_the_node() {
    let mut f = Fleet::new(config());
    f.register_node(1, CLUSTER, plain(8000, 16000), 1000).unwrap();
    submit(&mut f, 100, plain(1000, 1000), 1000);
    submit(&mut f, 101, plain(1000, 1000), 1000);
    f.schedule(100, CLUSTER, 1000).unwrap();
    assert_eq!(f.cancel(100, 2000), Ok(()));
    assert_eq!(f.job_status(100), Some(JobStatus::Cancelled));
    assert_eq!(f.job_node(100), None);
    let n = f.get_node(1).unwrap();
    assert_eq!(n.status, NodeStatus::Available);
    assert_eq!(n.assigned_job_id, None);
    assert_eq!(f.cancel(100, 2000), Ok(()));
    assert_eq!(f.cancel(101, 2000), Ok(()));
    assert_eq!(f.job_status(101), Some(JobStatus::Cancelled));
    assert_eq!(f.schedule(101, CLUSTER, 2000), None);
}

#[test]
fn stray_and_idle_reports() {
    let mut f = Fleet::new(config());
    f.register_node(1, CLUSTER, plain(8000, 16000), 1000).unwrap();
    assert_eq!(f.ingest_heartbeat(1, Report::Idle, 2000), Ok(Reconciliation::InSync));
    submit(&mut f, 100, plain(1000, 1000), 1000);
    assert_eq!(f.ingest_heartbeat(1, Report::Running(100), 3000), Ok(Reconciliation::Stray(100)));
    assert_eq!(
        f.ingest_heartbeat(1, Report::Finished(100, Outcome::Succeeded), 3000),
        Ok(Reconciliation::Stray(100))
    );
    assert_eq!(f.job_status(100), Some(JobStatus::Queued));
    assert_eq!(f.get_node(1).unwrap().status, NodeStatus::Available);
}

#[test]
fn starting_job_may_finish_before_confirmation() {
    let mut f = Fleet::new(config());
    f.register_node(1, CLUSTER, plain(8000, 16000), 1000).unwrap();
    submit(&mut f, 100, plain(1000, 1000), 1000);
    f.schedule(100, CLUSTER, 1000).unwrap();
    assert_eq!(
        f.ingest_heartbeat(1, Report::Finished(100, Outcome::Succeeded), 2000),
        Ok(Reconciliation::Completed(100))
    );
    assert_eq!(f.job_status(100), Some(JobStatus::Succeeded));
}

#[test]
fn cluster_summary_and_details() {
    let mut f = Fleet::new(config());
    f.register_node(1, CLUSTER, plain(8000, 16000), 1000).unwrap();
    f.register_node(2, CLUSTER, with_gpu(4000, 32000, GpuModel::T4, 4), 1000).unwrap();
    f.register_node(3, CLUSTER, plain(2000, 4000), 1000).unwrap();
    f.register_node(4, 8, plain(1000, 1000), 1000).unwrap();
    submit(&mut f, 100, with_gpu(1000, 1000, GpuModel::T4, 1), 1000);
    submit(&mut f, 101, plain(1000, 1000), 1000);
    submit(&mut f, 102, plain(1000, 1000), 1000);
    assert_eq!(f.schedule(100, CLUSTER, 1000), Some(2));
    assert_eq!(f.schedule(101, CLUSTER, 1000), Some(3));
    assert_eq!(f.schedule(102, 8, 1000), Some(4));
    f.mark_running(100, 1500).unwrap();
    f.mark_running(102, 1500).unwrap();
    assert_eq!(
        f.summarize(CLUSTER),
        ClusterSummary { cluster_id: CLUSTER, total_nodes: 3, busy_nodes: 2, total_running_jobs: 1 }
    );
    assert_eq!(
        f.detail(CLUSTER),
        ClusterDetails {
            cluster_id: CLUSTER,
            total_nodes: 3,
            busy_nodes: 2,
            total_memory_mb: 52000,
            used_memory_mb: 36000,
            total_millicores: 14000,
            used_millicores: 6000,
            total_gpus: 4,
            used_gpus: 4,
            total_running_jobs: 1,
        }
    );
    let empty = f.summarize(99);
    assert_eq!((empty.total_nodes, empty.busy_nodes, empty.total_running_jobs), (0, 0, 0));
}
