use onigiri::definition::{Catalog, TunnelParams};
use onigiri::manager::{EditStep, ToggleStep, Tunneler};
use onigiri::registry::{
    forward_spec, ssh_command, LaunchOutcome, Liveness, Registry, StartPlan, TunnelError,
};

fn params(name: &str, server: &str, local_port: u16, remote: &str, remote_port: u16) -> TunnelParams {
    TunnelParams {
        name: name.to_string(),
        ssh_server: server.to_string(),
        local_ip: "127.0.0.1".to_string(),
        local_port,
        remote_ip: remote.to_string(),
        remote_port,
    }
}

fn db() -> TunnelParams {
    params("db", "db-host", 3306, "localhost", 3306)
}

fn manager_with_db() -> (Tunneler, i64) {
    let mut m = Tunneler::new(Catalog::new());
    let id = m.create(db()).unwrap();
    (m, id)
}

fn running() -> LaunchOutcome {
    LaunchOutcome::Probed(Liveness::Running)
}

#[test]
fn ssh_command_forwards_in_no_command_mode_on_port_22() {
    let c = ssh_command(&db());
    assert_eq!(c.program, "ssh");
    assert_eq!(c.args, vec!["-N", "-p", "22", "db-host", "-L", "127.0.0.1:3306:localhost:3306"]);
}

#[test]
fn forward_spec_example() {
    let p = params("api", "staging", 8080, "api-internal", 80);
    assert_eq!(forward_spec(&p), "127.0.0.1:8080:api-internal:80");
}

#[test]
fn registry_start_then_stop() {
    let mut r = Registry::new();
    assert!(!r.is_active(1));
    match r.plan_start(1, &db()) {
        StartPlan::Launch(c) => assert_eq!(c.program, "ssh"),
        StartPlan::AlreadyRunning => panic!("nothing was running"),
    }
    assert!(r.finish_start(1, db(), 4242, running()).is_ok());
    assert!(r.is_active(1));
    assert_eq!(r.pid_of(1), Some(4242));
    assert_eq!(r.active_ids(), vec![1]);
    let h = r.stop(1).unwrap();
    assert_eq!(h.id, 1);
    assert_eq!(h.pid, 4242);
    assert!(!r.is_active(1));
    assert_eq!(r.pid_of(1), None);
    assert_eq!(r.len(), 0);
}

#[test]
fn registry_start_is_idempotent() {
    let mut r = Registry::new();
    r.finish_start(1, db(), 10, running()).unwrap();
    assert!(matches!(r.plan_start(1, &db()), StartPlan::AlreadyRunning));
    assert!(matches!(r.finish_start(1, db(), 11, running()), Err(TunnelError::AlreadyRunning)));
    assert_eq!(r.pid_of(1), Some(10));
    assert_eq!(r.len(), 1);
}

#[test]
fn registry_stop_without_handle_is_noop() {
    let mut r = Registry::new();
    r.finish_start(2, db(), 20, running()).unwrap();
    assert!(r.stop(1).is_none());
    assert!(r.stop(1).is_none());
    assert_eq!(r.active_ids(), vec![2]);
}

#[test]
fn registry_failed_launches_register_nothing() {
    let mut r = Registry::new();
    let spawn = r.finish_start(1, db(), 0, LaunchOutcome::SpawnFailed("no ssh".to_string()));
    assert!(matches!(spawn, Err(TunnelError::SpawnFailed(ref e)) if e == "no ssh"));
    let exited = r.finish_start(1, db(), 5, LaunchOutcome::Probed(Liveness::Exited(Some(255))));
    assert!(matches!(exited, Err(TunnelError::ProcessExitedImmediately(Some(255)))));
    let probe = r.finish_start(1, db(), 5, LaunchOutcome::Probed(Liveness::ProbeFailed("eio".to_string())));
    assert!(matches!(probe, Err(TunnelError::ProbeFailed(_))));
    assert!(!r.is_active(1));
}

#[test]
fn sweep_drops_dead_handles_with_one_diagnostic_each() {
    let mut r = Registry::new();
    r.finish_start(1, params("a", "h", 1, "x", 1), 101, running()).unwrap();
    r.finish_start(2, params("b", "h", 2, "x", 2), 102, running()).unwrap();
    r.finish_start(3, params("c", "h", 3, "x", 3), 103, running()).unwrap();
    r.finish_start(4, params("d", "h", 4, "x", 4), 104, running()).unwrap();
    let probes = vec![
        (1, Liveness::Running),
        (2, Liveness::Exited(Some(255))),
        (3, Liveness::ProbeFailed("eio".to_string())),
        (2, Liveness::Running),
    ];
    let diags = r.reconcile(&probes);
    assert_eq!(diags.len(), 2);
    assert_eq!(diags[0].id, 2);
    assert_eq!(diags[0].name, "b");
    assert_eq!(diags[0].pid, 102);
    assert!(matches!(diags[0].cause, Liveness::Exited(Some(255))));
    assert_eq!(diags[1].id, 3);
    assert!(matches!(diags[1].cause, Liveness::ProbeFailed(_)));
    assert_eq!(r.active_ids(), vec![1, 4]);
    assert!(r.reconcile(&probes).is_empty());
}

#[test]
fn drain_returns_every_handle() {
    let mut r = Registry::new();
    r.finish_start(1, db(), 1, running()).unwrap();
    r.finish_start(2, db(), 2, running()).unwrap();
    let all = r.drain();
    assert_eq!(all.len(), 2);
    assert_eq!(r.len(), 0);
}

#[test]
fn start_then_stop_through_manager() {
    let (mut m, id) = manager_with_db();
    let (p, c) = m.start_tunnel(id).unwrap().unwrap();
    assert_eq!(c.args[5], "127.0.0.1:3306:localhost:3306");
    assert!(m.finish_start(id, p, 77, running()).is_ok());
    assert!(m.is_active(id));
    assert!(m.start_tunnel(id).unwrap().is_none());
    let h = m.stop_tunnel(id).unwrap();
    assert_eq!(h.pid, 77);
    assert!(!m.is_active(id));
    assert!(m.stop_tunnel(id).is_none());
}

#[test]
fn start_of_unknown_tunnel_is_not_found() {
    let (mut m, _) = manager_with_db();
    assert!(matches!(m.start_tunnel(99), Err(TunnelError::NotFound)));
    assert!(matches!(m.toggle_tunnel(99), Err(TunnelError::NotFound)));
    assert!(matches!(m.finish_start(99, db(), 1, running()), Err(TunnelError::NotFound)));
    assert!(!m.is_active(99));
}

#[test]
fn toggle_starts_then_stops() {
    let (mut m, id) = manager_with_db();
    let (p, _c) = match m.toggle_tunnel(id).unwrap() {
        ToggleStep::Launch(p, c) => (p, c),
        ToggleStep::Stopped(_) => panic!("was not running"),
    };
    m.finish_start(id, p, 5, running()).unwrap();
    match m.toggle_tunnel(id).unwrap() {
        ToggleStep::Stopped(h) => assert_eq!(h.pid, 5),
        ToggleStep::Launch(..) => panic!("was running"),
    }
    assert!(!m.is_active(id));
}

#[test]
fn autonomous_exit_is_swept_without_stop() {
    let (mut m, id) = manager_with_db();
    let rows = m.list_active();
    assert_eq!(rows.len(), 1);
    assert_eq!(rows[0].params.remote_ip, "localhost");
    let (p, _) = m.start_tunnel(id).unwrap().unwrap();
    m.finish_start(id, p, 3131, running()).unwrap();
    assert_eq!(m.pid_of(id), Some(3131));
    let probes = vec![(id, Liveness::Exited(Some(255)))];
    let diags = m.update_tunnel_status(&probes);
    assert_eq!(diags.len(), 1);
    assert_eq!(diags[0].id, id);
    assert!(!m.is_active(id));
    assert_eq!(m.pid_of(id), None);
}

#[test]
fn edit_active_tunnel_restarts_with_new_port() {
    let (mut m, id) = manager_with_db();
    let (p, _) = m.start_tunnel(id).unwrap().unwrap();
    m.finish_start(id, p, 1000, running()).unwrap();
    let new_params = params("db", "db-host", 3306, "localhost", 3307);
    let step = m.save_edited_tunnel(id, new_params.clone()).unwrap();
    assert_eq!(m.list_active()[0].params.remote_port, 3307);
    assert!(!m.is_active(id));
    match step {
        EditStep::Restart(old, c) => {
            assert_eq!(old.pid, 1000);
            assert_eq!(c.args[5], "127.0.0.1:3306:localhost:3307");
        }
        EditStep::Saved => panic!("was running"),
    }
    m.finish_start(id, new_params, 1001, running()).unwrap();
    assert_eq!(m.pid_of(id), Some(1001));
}

#[test]
fn edit_active_tunnel_failed_restart_keeps_new_definition() {
    let (mut m, id) = manager_with_db();
    let (p, _) = m.start_tunnel(id).unwrap().unwrap();
    m.finish_start(id, p, 1000, running()).unwrap();
    let new_params = params("db", "db-host", 3306, "localhost", 3307);
    assert!(matches!(m.save_edited_tunnel(id, new_params.clone()), Ok(EditStep::Restart(..))));
    let r = m.finish_start(id, new_params, 1001, LaunchOutcome::Probed(Liveness::Exited(Some(255))));
    assert!(matches!(r, Err(TunnelError::ProcessExitedImmediately(Some(255)))));
    assert!(!m.is_active(id));
    assert_eq!(m.list_active()[0].params.remote_port, 3307);
}

#[test]
fn edit_inactive_tunnel_only_saves() {
    let (mut m, id) = manager_with_db();
    let step = m.save_edited_tunnel(id, params("db", "other", 1, "x", 2)).unwrap();
    assert!(matches!(step, EditStep::Saved));
    assert_eq!(m.list_active()[0].params.ssh_server, "other");
    assert!(matches!(m.save_edited_tunnel(55, db()), Err(TunnelError::NotFound)));
}

#[test]
fn delete_stops_and_hides_tunnel() {
    let (mut m, id) = manager_with_db();
    let (p, _) = m.start_tunnel(id).unwrap().unwrap();
    m.finish_start(id, p, 9, running()).unwrap();
    let stopped = m.delete_tunnel(id).unwrap();
    assert_eq!(stopped.unwrap().pid, 9);
    assert!(!m.is_active(id));
    assert!(m.list_active().is_empty());
    assert!(m.delete_tunnel(id).unwrap().is_none());
    assert!(matches!(m.start_tunnel(id), Err(TunnelError::NotFound)));
    assert!(matches!(m.delete_tunnel(123), Err(TunnelError::NotFound)));
}

#[test]
fn shutdown_hands_back_every_handle() {
    let mut m = Tunneler::new(Catalog::new());
    let a = m.create(db()).unwrap();
    let b = m.create(params("web", "h", 8080, "web", 80)).unwrap();
    m.finish_start(a, db(), 1, running()).unwrap();
    m.finish_start(b, db(), 2, running()).unwrap();
    assert_eq!(m.active_ids(), vec![a, b]);
    let all = m.shutdown();
    assert_eq!(all.len(), 2);
    assert!(!m.is_active(a) && !m.is_active(b));
    assert_eq!(m.list_active().len(), 2);
}

#[test]
fn next_id_matches_create() {
    let mut m = Tunneler::new(Catalog::new());
    let expected = m.next_id().unwrap();
    assert_eq!(m.create(db()).unwrap(), expected);
}

#[test]
fn created_identifiers_are_fresh() {
    let mut c = Catalog::new();
    c.restore(onigiri::definition::TunnelDefinition { id: 5, params: db(), deleted: true }).unwrap();
    let mut m = Tunneler::new(c);
    let id = m.create(db()).unwrap();
    assert_eq!(id, 6);
    let again = m.create(db()).unwrap();
    assert_eq!(again, 7);
    assert!(m.definition(5).is_none());
    assert_eq!(m.definition(6).unwrap().id, 6);
}
