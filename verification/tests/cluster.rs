use cello::cluster::{ClusterConfig, ClusterError, ClusterManager, WorkerInfo, WorkerState};

#[test]
fn test_cluster_config() {
    let config = ClusterConfig::new(4)
        .with_cpu_affinity()
        .max_restarts(10)
        .shutdown_timeout(cello::time::Duration::from_secs(60));

    assert_eq!(config.workers, 4);
    assert!(config.cpu_affinity);
    assert_eq!(config.max_restarts, 10);
}

#[test]
fn test_cluster_config_auto() {
    let config = ClusterConfig::auto();
    assert!(config.workers > 0);
}

#[test]
fn test_worker_info() {
    let mut worker = WorkerInfo::new(1);
    assert!(matches!(worker.state, WorkerState::Starting));

    worker.state = WorkerState::Running;
    worker.pid = Some(12345);

    assert!(matches!(worker.state, WorkerState::Running));
    assert_eq!(worker.pid, Some(12345));
}

#[test]
fn test_worker_restart_limit() {
    let config = ClusterConfig::new(1).max_restarts(3);
    let mut worker = WorkerInfo::new(1);

    // Should be able to restart initially
    assert!(worker.can_restart(&config));

    // Exhaust restart count
    worker.restarts = 3;
    worker.last_restart = Some(std::time::Instant::now());

    // Should not be able to restart
    assert!(!worker.can_restart(&config));
}

#[test]
fn test_cluster_manager() {
    let config = ClusterConfig::new(2);
    let mut manager = ClusterManager::new(config);

    assert!(manager.is_master());
    assert!(!manager.is_running());
    assert_eq!(manager.worker_count(), 2);

    // Start cluster
    manager.start().unwrap();
    assert!(manager.is_running());

    // Check workers
    let workers = &manager.workers;
    assert_eq!(workers.len(), 2);

    // Stop cluster
    manager.stop().unwrap();
    assert!(!manager.is_running());
}

#[test]
fn test_cluster_stats() {
    let config = ClusterConfig::new(4);
    let mut manager = ClusterManager::new(config);
    manager.start().unwrap();

    let stats = manager.stats();
    assert_eq!(stats.total_workers, 4);
    assert!(stats.is_running);
}

#[test]
fn restart_limits_and_errors() {
    let mut manager = ClusterManager::new(ClusterConfig::new(1).max_restarts(1));
    assert!(matches!(manager.stop(), Err(ClusterError::NotRunning)));
    manager.start().unwrap();
    assert!(matches!(manager.start(), Err(ClusterError::AlreadyRunning)));
    assert!(manager.restart_worker(0).is_ok());
    match manager.restart_worker(0) {
        Err(e) => assert_eq!(e.to_string(), "Maximum restarts exceeded for worker 0"),
        Ok(()) => panic!("restart allowed past the limit"),
    }
    match manager.restart_worker(9) {
        Err(e) => assert_eq!(e.to_string(), "Worker 9 not found"),
        Ok(()) => panic!("unknown worker restarted"),
    }
    manager.set_worker_state(0, WorkerState::Crashed);
    manager.set_worker_pid(0, 77);
    let stats = manager.stats();
    assert_eq!(stats.crashed_workers, 1);
    assert_eq!(stats.total_restarts, 1);
    assert_eq!(manager.worker_pids(), vec![77]);
}

#[test]
fn restart_window_allows_after_it_passes() {
    let config = ClusterConfig::new(1).max_restarts(1);
    let mut w = WorkerInfo::new(3);
    w.restarts = 1;
    assert!(!w.restart_allowed_after(&config, Some(60_000_000_000)));
    assert!(w.restart_allowed_after(&config, Some(60_000_000_001)));
    assert!(!w.restart_allowed_after(&config, None));
}

#[test]
fn restart_window_counts_nanoseconds() {
    let mut config = ClusterConfig::new(1).max_restarts(1);
    config.restart_window = cello::time::Duration::from_millis(1500);
    let mut w = WorkerInfo::new(4);
    w.restarts = 1;
    assert!(!w.restart_allowed_after(&config, Some(1_400_000_000)));
    assert!(!w.restart_allowed_after(&config, Some(1_500_000_000)));
    assert!(w.restart_allowed_after(&config, Some(1_500_000_001)));
}
