use helios::messages::CompileResponse;
use helios::registry::DispatchEvent;
use helios::registry::DispatchStep;
use helios::registry::PeerRegistry;

fn response(task_id: &str) -> CompileResponse {
    CompileResponse {
        task_id: task_id.to_string(),
        exit_code: 0,
        object_file: vec![1, 2, 3],
        stdout_logs: String::new(),
        stderr_logs: String::new(),
        duration_ms: 12,
    }
}

fn start(reg: &mut PeerRegistry) -> (String, String) {
    match reg.dispatch(DispatchEvent::Start) {
        DispatchStep::Connect { peer, endpoint } => (peer, endpoint),
        DispatchStep::Finished(_) => panic!("expected a peer"),
    }
}

#[test]
fn empty_registry_has_no_peer() {
    let mut reg = PeerRegistry::new();
    assert_eq!(reg.least_loaded(), None);
    assert!(reg.can_start_dispatch());
    match reg.dispatch(DispatchEvent::Start) {
        DispatchStep::Finished(Err(e)) => assert_eq!(e, "No peers available on the network"),
        _ => panic!("expected the no-peer error"),
    }
    assert_eq!(reg.jobs_of(&"10.0.0.1:50051".to_string()), None);
}

#[test]
fn added_peer_starts_idle() {
    let mut reg = PeerRegistry::new();
    reg.add_peer("10.0.0.1:50051".to_string());
    assert_eq!(reg.jobs_of(&"10.0.0.1:50051".to_string()), Some(0));
    assert_eq!(reg.least_loaded(), Some("10.0.0.1:50051".to_string()));
}

#[test]
fn add_peer_is_idempotent_and_keeps_load() {
    let mut reg = PeerRegistry::new();
    reg.add_peer("a:1".to_string());
    let (peer, _) = start(&mut reg);
    assert_eq!(peer, "a:1");
    assert_eq!(reg.jobs_of(&"a:1".to_string()), Some(1));
    reg.add_peer("a:1".to_string());
    reg.add_peer("a:1".to_string());
    assert_eq!(reg.jobs_of(&"a:1".to_string()), Some(1));
}

#[test]
fn dispatch_picks_least_loaded_peer() {
    let mut reg = PeerRegistry::new();
    reg.add_peer("a:1".to_string());
    reg.add_peer("b:2".to_string());
    let (first, endpoint) = start(&mut reg);
    assert_eq!(first, "a:1");
    assert_eq!(endpoint, "http://a:1");
    let (second, endpoint) = start(&mut reg);
    assert_eq!(second, "b:2");
    assert_eq!(endpoint, "http://b:2");
    let (third, _) = start(&mut reg);
    assert_eq!(third, "a:1");
    assert_eq!(reg.jobs_of(&"a:1".to_string()), Some(2));
    assert_eq!(reg.jobs_of(&"b:2".to_string()), Some(1));
    assert_eq!(reg.least_loaded(), Some("b:2".to_string()));
}

#[test]
fn completed_dispatch_restores_load() {
    let mut reg = PeerRegistry::new();
    reg.add_peer("a:1".to_string());
    reg.add_peer("b:2".to_string());
    let (peer, _) = start(&mut reg);
    match reg.dispatch(DispatchEvent::Completed { peer: peer.clone(), response: response("t1") }) {
        DispatchStep::Finished(Ok(r)) => {
            assert_eq!(r.task_id, "t1");
            assert_eq!(r.object_file, vec![1, 2, 3]);
            assert_eq!(r.duration_ms, 12);
        }
        _ => panic!("expected the response"),
    }
    assert_eq!(reg.jobs_of(&"a:1".to_string()), Some(0));
    assert_eq!(reg.jobs_of(&"b:2".to_string()), Some(0));
}

#[test]
fn failed_connect_takes_job_off() {
    let mut reg = PeerRegistry::new();
    reg.add_peer("a:1".to_string());
    let (peer, _) = start(&mut reg);
    match reg.dispatch(DispatchEvent::ConnectFailed { peer, detail: "refused".to_string() }) {
        DispatchStep::Finished(Err(e)) => assert_eq!(e, "Failed to connect to peer: refused"),
        _ => panic!("expected the connect error"),
    }
    assert_eq!(reg.jobs_of(&"a:1".to_string()), Some(0));
}

#[test]
fn failed_call_takes_job_off() {
    let mut reg = PeerRegistry::new();
    reg.add_peer("a:1".to_string());
    let (peer, _) = start(&mut reg);
    match reg.dispatch(DispatchEvent::CallFailed { peer, detail: "status: Internal".to_string() }) {
        DispatchStep::Finished(Err(e)) => assert_eq!(e, "status: Internal"),
        _ => panic!("expected the call error"),
    }
    assert_eq!(reg.jobs_of(&"a:1".to_string()), Some(0));
}

#[test]
fn completion_never_goes_below_zero() {
    let mut reg = PeerRegistry::new();
    reg.add_peer("a:1".to_string());
    match reg.dispatch(DispatchEvent::Completed { peer: "a:1".to_string(), response: response("t") }) {
        DispatchStep::Finished(Ok(_)) => {}
        _ => panic!("expected the response"),
    }
    assert_eq!(reg.jobs_of(&"a:1".to_string()), Some(0));
    match reg.dispatch(DispatchEvent::Completed { peer: "z:9".to_string(), response: response("u") }) {
        DispatchStep::Finished(Ok(r)) => assert_eq!(r.task_id, "u"),
        _ => panic!("expected the response"),
    }
    assert_eq!(reg.jobs_of(&"z:9".to_string()), None);
}

#[test]
fn failed_dispatch_does_not_skew_later_choice() {
    let mut reg = PeerRegistry::new();
    reg.add_peer("a:1".to_string());
    reg.add_peer("b:2".to_string());
    let (busy, _) = start(&mut reg);
    assert_eq!(busy, "a:1");
    let (failing, _) = start(&mut reg);
    assert_eq!(failing, "b:2");
    match reg.dispatch(DispatchEvent::ConnectFailed { peer: failing, detail: "down".to_string() }) {
        DispatchStep::Finished(Err(_)) => {}
        _ => panic!("expected the connect error"),
    }
    assert_eq!(reg.jobs_of(&"a:1".to_string()), Some(1));
    assert_eq!(reg.jobs_of(&"b:2".to_string()), Some(0));
    let (next, _) = start(&mut reg);
    assert_eq!(next, "b:2");
}
