//! The control service: nodes, jobs and named actors.

use rayd::gcs::actors::{ActorsRegistry, RegisterActorRequest};
use rayd::gcs::client::{
    add_job_request, found_actor, parse_id, register_actor_request, register_request, registered,
    GcsClientError,
};
use rayd::gcs::jobs::JobStatus;
use rayd::gcs::metrics::Metrics;
use rayd::gcs::nodes::{
    pass_live, LiveItem, NodeEvent, NodeStatus, NodesRegistry, Resources, BROADCAST_CHANNEL_CAPACITY,
    REPLAY_BUFFER_CAPACITY,
};
use rayd::gcs::server::{GcsServer, GcsServerConfig};
use rayd::gcs::status::{hex_short, RpcCode};
use rayd::util::clock::{clamp_millis, reported_ms, unix_ms};
use rayd::util::prom::Exposition;

fn register_a_node(server: &mut GcsServer, id: u8, now: u64) -> [u8; 16] {
    let req = register_request(
        "10.0.0.7",
        60099,
        "/tmp/rayd/exp.sock",
        Resources { num_cpus: 1, num_gpus: 0, memory_bytes: 1 },
    );
    server.nodes.register_as(req, [id; 16], now).expect("register").node_id
}

fn status_of(server: &GcsServer, node_id: &[u8; 16]) -> NodeStatus {
    let nodes = server.nodes.snapshot();
    let entry = nodes
        .iter()
        .find(|n| n.address.as_ref().is_some_and(|a| a.node_id == node_id))
        .expect("registered node visible");
    NodeStatus::from_code(entry.status)
}

fn fast_expiry_config() -> GcsServerConfig {
    GcsServerConfig { heartbeat_timeout_ms: 150, sweep_interval_ms: 50 }
}

#[test]
fn register_list_drain_round_trip() {
    let mut server = GcsServer::start();
    let resources =
        Resources { num_cpus: 8, num_gpus: 0, memory_bytes: 16 * 1024 * 1024 * 1024 };

    let a = server
        .nodes
        .register(register_request("10.0.0.1", 60001, "/tmp/rayd/a.sock", resources))
        .expect("register a");
    let b = server
        .nodes
        .register(register_request("10.0.0.2", 60002, "/tmp/rayd/b.sock", resources))
        .expect("register b");
    let outcome_a = registered(&a.node_id, &a.cluster_session_id).expect("reply a");
    let outcome_b = registered(&b.node_id, &b.cluster_session_id).expect("reply b");

    assert_ne!(outcome_a.node_id, outcome_b.node_id);
    assert_eq!(outcome_a.cluster_session_id, outcome_b.cluster_session_id);

    let nodes = server.nodes.snapshot();
    assert_eq!(nodes.len(), 2);
    assert_eq!(server.node_count(), 2);

    let mut hosts: Vec<String> =
        nodes.iter().filter_map(|n| n.address.as_ref()).map(|a| a.host.clone()).collect();
    hosts.sort();
    assert_eq!(hosts, vec!["10.0.0.1", "10.0.0.2"]);

    server.nodes.heartbeat(&outcome_a.node_id).expect("heartbeat a");
    server.nodes.drain(&outcome_a.node_id).expect("drain a");

    assert_eq!(status_of(&server, &outcome_a.node_id), NodeStatus::Draining);
    assert_eq!(status_of(&server, &outcome_b.node_id), NodeStatus::Alive);
}

#[test]
fn drain_unknown_node_returns_not_found() {
    let mut server = GcsServer::start();
    let e = server.nodes.drain(&[0xAB; 16]).unwrap_err();
    assert_eq!(e.code, RpcCode::NotFound);
    assert_eq!(e.message, "unknown node_id");
    let e = server.nodes.drain(&[0xAB; 5]).unwrap_err();
    assert_eq!(e.code, RpcCode::InvalidArgument);
    assert_eq!(e.message, "node_id must be 16 bytes, got 5");
    assert_eq!(server.nodes.heartbeat(&[1; 16]).unwrap_err().code, RpcCode::NotFound);
}

#[test]
fn add_list_finish_job_round_trip() {
    let mut server = GcsServer::start();
    let node = register_a_node(&mut server, 1, 1);

    let job_a = server
        .jobs
        .add_job(add_job_request("driver-host-a", 4242, Some(node)))
        .expect("add a");
    let job_b = server.jobs.add_job(add_job_request("driver-host-b", 4243, None)).expect("add b");
    assert_ne!(job_a, job_b);

    let jobs = server.jobs.snapshot();
    assert_eq!(jobs.len(), 2);
    for job in &jobs {
        assert_eq!(job.status, JobStatus::Running.code());
        assert_eq!(job.finished_at_unix_ms, 0);
    }

    assert!(server.jobs.mark_job_finished(&job_a, "".into()).expect("finish a"));
    assert!(server.jobs.mark_job_finished(&job_b, "boom".into()).expect("finish b"));

    let after = server.jobs.snapshot();
    let by_pid = |pid: u32| after.iter().find(|j| j.driver_pid == pid).expect("listed");
    assert_eq!(by_pid(4242).status, JobStatus::Finished.code());
    assert_eq!(by_pid(4243).status, JobStatus::Failed.code());
    assert_ne!(by_pid(4242).finished_at_unix_ms, 0);
    assert_eq!(server.jobs.failure_message(&job_a), None);
    assert_eq!(server.jobs.failure_message(&job_b).as_deref(), Some("boom"));
}

#[test]
fn add_job_rejects_empty_driver_host() {
    let mut server = GcsServer::start();
    let e = server.jobs.add_job(add_job_request("", 1, None)).unwrap_err();
    assert_eq!(e.code, RpcCode::InvalidArgument);
    assert_eq!(e.message, "driver_host must not be empty");
}

#[test]
fn job_identifiers_are_checked() {
    let mut server = GcsServer::start();
    let mut req = add_job_request("h", 1, None);
    req.node_id = vec![1, 2, 3];
    let e = server.jobs.add_job(req).unwrap_err();
    assert_eq!(e.message, "node_id must be 16 bytes (or empty), got 3");
    let e = server.jobs.mark_job_finished(&[1], "".into()).unwrap_err();
    assert_eq!(e.message, "job_id must be 16 bytes, got 1");
    let e = server.jobs.mark_job_finished(&[1; 16], "".into()).unwrap_err();
    assert_eq!((e.code, e.message.as_str()), (RpcCode::NotFound, "unknown job_id"));
    assert_eq!((server.job_count(), server.actor_count()), (0, 0));
}

#[test]
fn a_job_ends_once_for_the_count_of_running_ones() {
    let mut server = GcsServer::start();
    let id = server.jobs.add_job_as(add_job_request("h", 9, None), [4; 16], 100).expect("add");
    assert!(server.jobs.mark_job_finished_at(&id, "bad".into(), 200).expect("first"));
    assert!(!server.jobs.mark_job_finished_at(&id, "".into(), 300).expect("second"));
    let job = &server.jobs.snapshot()[0];
    assert_eq!(job.registered_at_unix_ms, 100);
    assert_eq!(job.finished_at_unix_ms, 300);
    assert_eq!(job.status, JobStatus::Finished.code());
    assert_eq!(server.jobs.failure_message(&id).as_deref(), Some("bad"));
}

#[test]
fn missed_heartbeats_mark_node_dead() {
    let mut server = GcsServer::start_with_config(fast_expiry_config());
    let node_id = register_a_node(&mut server, 1, 1_000);
    assert_eq!(server.config.sweep_every(), Some(50));
    let published = server.sweep(1_400);
    assert_eq!(published.events.len(), 1);
    assert_eq!(status_of(&server, &node_id), NodeStatus::Dead);
}

#[test]
fn periodic_heartbeats_keep_node_alive() {
    let mut server = GcsServer::start_with_config(fast_expiry_config());
    let node_id = register_a_node(&mut server, 1, 1_000);
    for i in 1..10u64 {
        server.nodes.heartbeat_at(&node_id, 1_000 + 50 * i).expect("heartbeat");
        assert!(server.sweep(1_000 + 50 * i).events.is_empty());
    }
    assert_eq!(status_of(&server, &node_id), NodeStatus::Alive);
}

#[test]
fn a_sweep_spares_a_node_at_the_very_timeout() {
    let mut server = GcsServer::start_with_config(fast_expiry_config());
    let node_id = register_a_node(&mut server, 1, 1_000);
    server.sweep(1_150);
    assert_eq!(status_of(&server, &node_id), NodeStatus::Alive);
    server.sweep(1_151);
    assert_eq!(status_of(&server, &node_id), NodeStatus::Dead);
}

#[test]
fn drained_node_is_not_resurrected_as_dead() {
    let mut server = GcsServer::start_with_config(fast_expiry_config());
    let node_id = register_a_node(&mut server, 1, 1_000);
    server.nodes.drain(&node_id).expect("drain");
    server.sweep(1_400);
    assert_eq!(status_of(&server, &node_id), NodeStatus::Draining);
}

#[test]
fn register_rejects_empty_host() {
    let mut server = GcsServer::start();
    let resources = Resources { num_cpus: 1, num_gpus: 0, memory_bytes: 1 };
    let e = server
        .nodes
        .register(register_request("", 12345, "/tmp/x.sock", resources))
        .unwrap_err();
    assert_eq!(e.code, RpcCode::InvalidArgument);
    assert_eq!(e.message, "host must not be empty");
    assert_eq!(server.node_count(), 0);
}

#[test]
fn calls_change_the_metrics() {
    let mut server = GcsServer::start_with_config(GcsServerConfig::with_timeout(10_000));
    let resources = Resources { num_cpus: 1, num_gpus: 0, memory_bytes: 0 };
    let r = server
        .nodes
        .register(register_request("10.0.0.1", 60100, "/tmp/rayd-metrics-test.sock", resources))
        .expect("register");
    assert_eq!((r.metrics.registered, r.metrics.alive_added, r.metrics.events), (1, 1, 1));
    let heard = server.nodes.heartbeat(&r.node_id).expect("heartbeat");
    assert_eq!((heard.heartbeats, heard.events), (1, 0));
    let drained = server.nodes.drain(&r.node_id).expect("drain");
    assert_eq!((drained.metrics.alive_removed, drained.metrics.events), (1, 1));
    let again = server.nodes.drain(&r.node_id).expect("drain again");
    assert_eq!((again.metrics.alive_removed, again.metrics.events), (0, 1));
}

#[test]
fn watch_nodes_emits_snapshot_then_live_events() {
    let mut server = GcsServer::start();
    let outcome = register_a_node(&mut server, 1, 5);

    let start = server.nodes.watch_nodes(0).expect("watch_nodes open");
    let snap = &start.catchup[0];
    assert_eq!(snap.sequence, 0);
    let snap_node = snap.node.as_ref().expect("snapshot has node");
    assert_eq!(snap_node.address.as_ref().expect("addr").node_id, outcome.to_vec());

    let req = register_request(
        "10.0.0.7",
        60099,
        "/tmp/rayd/exp.sock",
        Resources { num_cpus: 1, num_gpus: 0, memory_bytes: 1 },
    );
    let second = server.nodes.register_as(req, [2; 16], 6).expect("register");
    let live = pass_live(LiveItem::Event(second.event), start.highest_catchup_sequence)
        .expect("passed on")
        .expect("event ok");
    assert!(live.sequence >= 1, "live event sequence is {}", live.sequence);
    assert!(live.node.is_some());
}

#[test]
fn watch_nodes_publishes_drain_and_dead_transitions() {
    let mut server = GcsServer::start_with_config(fast_expiry_config());
    let drain_target = register_a_node(&mut server, 1, 1_000);
    let _death_target = register_a_node(&mut server, 2, 1_000);
    let start = server.nodes.watch_nodes(0).expect("watch_nodes open");

    let mut events: Vec<NodeEvent> = server.nodes.drain(&drain_target).expect("drain").events;
    events.extend(server.sweep(1_400).events);
    let statuses: Vec<NodeStatus> = events
        .into_iter()
        .filter_map(|e| pass_live(LiveItem::Event(e), start.highest_catchup_sequence))
        .map(|e| NodeStatus::from_code(e.expect("event").node.expect("node").status))
        .collect();
    assert_eq!(statuses, vec![NodeStatus::Draining, NodeStatus::Dead]);
}

#[test]
fn watch_nodes_resume_with_last_seen_skips_stale_events() {
    let mut server = GcsServer::start();
    for i in 1..4u8 {
        register_a_node(&mut server, i, 1);
    }
    let start = server.nodes.watch_nodes(2).expect("watch_nodes resume");
    assert_eq!(start.catchup.len(), 1);
    assert_eq!(start.catchup[0].sequence, 3);
    assert_eq!(start.highest_catchup_sequence, 3);
    let repeated = NodeEvent { sequence: 3, node: None };
    assert!(pass_live(LiveItem::Event(repeated), 3).is_none());
}

#[test]
fn a_subscriber_too_far_behind_is_refused() {
    let mut nodes = NodesRegistry::with_session([9; 16]);
    let req = register_request(
        "h",
        1,
        "s",
        Resources { num_cpus: 1, num_gpus: 0, memory_bytes: 1 },
    );
    nodes.register_as(req, [1; 16], 0).expect("register");
    for _ in 0..REPLAY_BUFFER_CAPACITY + 1 {
        nodes.drain(&[1; 16]).expect("drain");
    }
    assert_eq!(nodes.oldest_buffered_sequence(), Some(3));
    let e = nodes.watch_nodes(1).unwrap_err();
    assert_eq!(e.code, RpcCode::OutOfRange);
    assert_eq!(e.message, "last_seen_sequence 1 is older than the buffer floor 3");
    let start = nodes.watch_nodes(2).expect("just in time");
    assert_eq!(start.catchup.len(), REPLAY_BUFFER_CAPACITY);
    assert_eq!(nodes.buffered_after(1_025).len(), 1);
    assert_eq!(nodes.cluster_session_id(), [9; 16]);
    assert_eq!(BROADCAST_CHANNEL_CAPACITY, 256);
}

#[test]
fn a_lagging_subscriber_is_told_to_start_over() {
    let e = pass_live(LiveItem::Lagged, 0).expect("told").unwrap_err();
    assert_eq!(e.code, RpcCode::OutOfRange);
    assert_eq!(
        e.message,
        "subscriber lagged past broadcast capacity; reconnect with last_seen=0"
    );
}

#[test]
fn sweeps_can_be_switched_off() {
    assert_eq!(GcsServerConfig::with_timeout(0).sweep_every(), None);
    let mut server = GcsServer::start_with_config(GcsServerConfig::with_timeout(0));
    let resources = Resources { num_cpus: 1, num_gpus: 0, memory_bytes: 0 };
    let req = register_request("10.0.0.1", 1, "s", resources);
    server.nodes.register_as(req, [1; 16], 5).expect("register");
    let swept = server.sweep(10);
    assert!(swept.events.is_empty());
    assert_eq!(swept.metrics.alive_removed, 0);
    assert_eq!(server.nodes.snapshot()[0].status, 1);
    assert_eq!(GcsServerConfig::with_timeout(0).sweep_interval_ms, 1_000);
    assert_eq!(GcsServerConfig::with_timeout(400).sweep_every(), Some(400));
    assert_eq!(GcsServerConfig::default().sweep_every(), Some(1_000));
    assert_eq!(GcsServerConfig::default().heartbeat_timeout_ms, 10_000);
}

fn actor(name: &str, id: u8) -> RegisterActorRequest {
    register_actor_request(name, [id; 16], Some([7; 16]), 42, "10.0.0.9", 7001)
}

#[test]
fn a_name_belongs_to_one_actor() {
    let mut actors = ActorsRegistry::new();
    assert!(actors.register_actor_at(actor("a \"b\"", 1), 10).expect("new"));
    assert!(!actors.register_actor_at(actor("a \"b\"", 1), 20).expect("same"));
    let e = actors.register_actor(actor("a \"b\"", 2)).unwrap_err();
    assert_eq!(e.code, RpcCode::AlreadyExists);
    assert_eq!(e.message, "actor name \"a \\\"b\\\"\" is already registered");
    let info = actors.get_actor(&"a \"b\"".to_string()).expect("found");
    assert_eq!(info.registered_at_unix_ms, 10);
    assert_eq!((info.owner_pid, info.driver_actor_port), (42, 7001));

    let e = actors.unregister_actor(&"a \"b\"".to_string(), &[2; 16]).unwrap_err();
    assert_eq!(e.code, RpcCode::FailedPrecondition);
    assert_eq!(e.message, "actor_id does not match registered entry");
    actors.unregister_actor(&"a \"b\"".to_string(), &[1; 16]).expect("taken back");
    assert_eq!(actors.len(), 0);
    let e = actors.get_actor(&"a \"b\"".to_string()).unwrap_err();
    assert_eq!(e.message, "no actor named \"a \\\"b\\\"\"");
    assert!(actors.register_actor_at(actor("a \"b\"", 2), 30).expect("free again"));
    assert_eq!(actors.snapshot().len(), 1);
}

#[test]
fn actor_requests_are_checked_in_order() {
    let mut actors = ActorsRegistry::new();
    let mut req = actor("", 1);
    req.actor_id = vec![1];
    assert_eq!(actors.register_actor(req).unwrap_err().message, "name must not be empty");
    let mut req = actor("x", 1);
    req.actor_id = vec![1];
    req.owner_node_id = vec![2];
    assert_eq!(
        actors.register_actor(req).unwrap_err().message,
        "actor_id must be 16 bytes, got 1"
    );
    let mut req = actor("x", 1);
    req.owner_node_id = vec![2];
    assert_eq!(
        actors.register_actor(req).unwrap_err().message,
        "owner_node_id must be 16 bytes (or empty), got 1"
    );
    assert_eq!(
        actors.unregister_actor(&"x".to_string(), &[1; 16]).unwrap_err().message,
        "unknown actor name"
    );
    assert_eq!(
        actors.get_actor(&String::new()).unwrap_err().message,
        "name must not be empty"
    );
}

#[test]
fn replies_are_checked() {
    let e = registered(&[1; 16], &[2; 3]).unwrap_err();
    assert_eq!(e.text(), "malformed reply: cluster_session_id must be 16 bytes, got 3");
    assert_eq!(parse_id(&[3; 16], "job_id").expect("id"), [3; 16]);
    let missing = Err(GcsClientError::Rpc(RpcCode::NotFound, "gone".into()));
    assert!(matches!(found_actor(missing), Ok(None)));
    let refused = found_actor(Err(GcsClientError::Rpc(RpcCode::Internal, "x".into())));
    assert_eq!(refused.unwrap_err().text(), "rpc: x");
    assert_eq!(GcsClientError::Connect("y".into()).text(), "connect: y");
    assert_eq!(
        GcsClientError::invalid_uri("z").text(),
        "malformed reply: invalid uri: z"
    );
}

#[test]
fn statuses_have_numbers() {
    for s in [NodeStatus::Unspecified, NodeStatus::Alive, NodeStatus::Draining, NodeStatus::Dead] {
        assert_eq!(NodeStatus::from_code(s.code()), s);
    }
    assert_eq!(NodeStatus::from_code(77), NodeStatus::Unspecified);
    assert_eq!(hex_short(&[0xAB; 16]), "abababab");
}

#[test]
fn the_clock_is_past_the_year_2020() {
    assert!(unix_ms() > 1_577_836_800_000);
    assert_eq!(clamp_millis(u128::MAX), u64::MAX);
    assert_eq!(clamp_millis(12), 12);
    assert_eq!(reported_ms(None), 0);
    assert_eq!(reported_ms(Some(1_577_836_800_000)), 1_577_836_800_000);
    assert_eq!(reported_ms(Some(u128::MAX)), u64::MAX);
}

#[test]
fn metrics_are_shown_where_they_are_in_order() {
    let mut e = Exposition::new();
    e.counter("a_total", "How \\ many.", 3);
    e.gauge("b:c", "Now.", -2);
    e.counter_pair("d_total", "By outcome.", "outcome", ("hit", 4), ("miss", 5));
    assert_eq!(
        e.text().expect("text"),
        "# HELP a_total How \\\\ many.\n# TYPE a_total counter\na_total 3\n\
         # HELP b:c Now.\n# TYPE b:c gauge\nb:c -2\n\
         # HELP d_total By outcome.\n# TYPE d_total counter\n\
         d_total{outcome=\"hit\"} 4\nd_total{outcome=\"miss\"} 5\n"
    );
    assert_eq!(Exposition::new().text().expect("text"), "");
    for (name, help) in [("a b", "x"), ("", "x"), ("1a", "x"), ("a", "")] {
        let mut e = Exposition::new();
        e.counter(name, help, 1);
        e.gauge("fine", "x", 1);
        assert!(e.text().is_err(), "{name:?} {help:?}");
    }
    for label in ["a:b", "a-b", "0"] {
        let mut e = Exposition::new();
        e.counter_pair("a", "x", label, ("y", 1), ("z", 2));
        assert!(!e.text().unwrap_err().message.is_empty(), "{label:?}");
    }
}

#[test]
fn metrics_endpoint_serves_register_and_heartbeat_counters() {
    let mut server = GcsServer::start();
    let mut metrics = Metrics::new();
    let resources = Resources { num_cpus: 1, num_gpus: 0, memory_bytes: 0 };
    let r = server
        .nodes
        .register(register_request("10.0.0.1", 60100, "/tmp/rayd-metrics-test.sock", resources))
        .expect("register");
    metrics.update_nodes(r.metrics);
    for _ in 0..3 {
        metrics.update_nodes(server.nodes.heartbeat(&r.node_id).expect("heartbeat"));
    }
    let body = metrics.encode_text().expect("text");
    let names: Vec<&str> = body
        .lines()
        .filter_map(|l| l.strip_prefix("# TYPE "))
        .filter_map(|l| l.split(' ').next())
        .collect();
    let mut sorted = names.clone();
    sorted.sort_unstable();
    assert_eq!((names.len(), &names), (7, &sorted));
    assert!(body.contains("rayd_gcs_register_node_total 1"), "body = {body:?}");
    assert!(body.contains("rayd_gcs_heartbeat_received_total 3"), "body = {body:?}");
    assert!(body.contains("rayd_gcs_nodes_alive 1"), "body = {body:?}");
    assert!(body.contains("rayd_gcs_nodes_total 1"), "body = {body:?}");
    assert!(body.contains("rayd_gcs_watch_events_published_total 1"), "body = {body:?}");
    metrics.update_nodes(server.nodes.drain(&r.node_id).expect("drain").metrics);
    metrics.job_added();
    metrics.job_added();
    metrics.job_finished(true);
    metrics.job_finished(false);
    metrics.actor_registered(true);
    metrics.actor_registered(false);
    let body = metrics.encode_text().expect("text");
    assert!(body.contains("rayd_gcs_nodes_alive 0\n"), "body = {body:?}");
    assert!(body.contains("rayd_gcs_nodes_total 1\n"), "body = {body:?}");
    assert!(body.contains("rayd_gcs_jobs_running 1\n"), "body = {body:?}");
    assert!(body.contains("# TYPE rayd_gcs_jobs_running gauge\n"), "body = {body:?}");
    assert!(body.contains("rayd_gcs_actors_total 1\n"), "body = {body:?}");
    metrics.actor_unregistered();
    assert_eq!(metrics.actors_total, 0);
}

#[test]
fn a_sweep_finds_nothing_twice() {
    let mut server = GcsServer::start_with_config(fast_expiry_config());
    let gone = register_a_node(&mut server, 1, 1_000);
    let kept = register_a_node(&mut server, 2, 1_390);
    let first = server.sweep(1_400);
    assert_eq!((first.events.len(), first.metrics.alive_removed), (1, 1));
    assert_eq!(first.events[0].sequence, 3);
    assert!(server.sweep(1_400).events.is_empty());
    assert_eq!(status_of(&server, &gone), NodeStatus::Dead);
    assert_eq!(status_of(&server, &kept), NodeStatus::Alive);
    assert_eq!(server.nodes.next_sequence(), 4);
}
