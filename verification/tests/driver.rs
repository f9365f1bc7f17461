//! The driver: lineage, jobs, results, values and references.

use rayd::cli::{advertise_host, capacity_bytes, start_mode, StartMode};
use rayd::driver::cluster::{
    actor_repr, address_repr, choose_holder, convert_job, convert_node, error_info_repr,
    fetch_sealed, job_repr, job_status_str, node_not_found, node_repr, node_status_str,
    object_id_repr, owner_addr_for, raylet_addr_for, resources_repr, short_hex_28,
};
use rayd::driver::dispatcher::{
    complete_job, handle_completion, parse_return, DispatchJob, Dispatcher, NextJob, ReturnEntry,
    DEFAULT_WORKERS,
};
use rayd::driver::driver_metrics::DriverMetrics;
use rayd::driver::fetch::{fetch_begin, fetch_holder, fetch_owner, fetch_pulled};
use rayd::driver::settings::{
    default_resources, heartbeat_interval_ms, parse_num_workers, parse_spill_budget,
    resolve_plasma_socket, workers_missing, PlasmaSocket,
};
use rayd::driver::task_manager::{LineageStatus, TaskManager, DEFAULT_MAX_RETRIES};
use rayd::driver::values::{
    can_count, can_put,
    drop_ref, error_info_from_object, exception, get_one, mint_actor_result_ref, owner_node,
    peek_error, put, record_plasma_seal, ref_state, seal_failed, settle, sized, states,
    submit_task, try_resubmit_for_lineage, wait, worker_seal, GetOutcome, Settled,
};
use rayd::driver::wire::{recv_length, send_frame, MAX_FRAME_BYTES};
use rayd::gcs::jobs::JobInfo;
use rayd::gcs::nodes::{NodeAddress, NodeInfo, Resources};
use rayd::kernel::core_worker::{
    CoreError, CoreWorker, FreeStep, ResolvedObject, SealStep, DEFAULT_SPILL_BUDGET_BYTES,
};
use rayd::kernel::error_info::ErrorInfo;
use rayd::kernel::error_payload::ErrorPayload;
use rayd::kernel::id::{ObjectId, TaskId, WorkerId};
use rayd::kernel::log::{
    forward_enabled, level_to_python, python_line, EventHandler, LogLevel, MessageVisitor,
};
use rayd::kernel::metadata::{ErrorCategory, Metadata, RefState};
use rayd::kernel::object_ref::{Address, ObjectRef};
use rayd::plasma::error::{PlasmaError, ServerErrorKind};
use rayd::raylet::client::PulledObject;

fn oid(seed: u8) -> ObjectId {
    let mut buf = [0u8; 28];
    buf[0] = seed;
    ObjectId::from_bytes(buf)
}

fn tid(seed: u8) -> TaskId {
    let mut buf = [0u8; 24];
    buf[0] = seed;
    TaskId::from_bytes(buf)
}

// Lineage.

#[test]
fn record_inserts_one_entry_per_output() {
    let mut m = TaskManager::new();
    m.record(&[oid(1), oid(2)], tid(7), 2, b"call".to_vec(), b"args".to_vec(), None);
    assert_eq!(m.len(), 2);
}

#[test]
fn try_resubmit_blocks_until_completion_seen() {
    let mut m = TaskManager::new();
    m.record(&[oid(1)], tid(7), 1, b"call".to_vec(), b"args".to_vec(), None);
    assert!(m.try_resubmit(oid(1)).is_none());
    assert_eq!(m.lineage_status(oid(1)), LineageStatus::NotYetCompleted);

    for _ in 0..DEFAULT_MAX_RETRIES {
        m.mark_completed(tid(7));
        assert!(m.try_resubmit(oid(1)).is_some());
    }
    m.mark_completed(tid(7));
    assert!(m.try_resubmit(oid(1)).is_none());
    assert_eq!(m.lineage_status(oid(1)), LineageStatus::BudgetExhausted);
}

#[test]
fn unknown_object_returns_not_recorded() {
    let mut m = TaskManager::new();
    assert!(m.try_resubmit(oid(99)).is_none());
    assert_eq!(m.lineage_status(oid(99)), LineageStatus::NotRecorded);
}

#[test]
fn shared_task_decrements_all_outputs_together() {
    let mut m = TaskManager::new();
    m.record(&[oid(1), oid(2)], tid(7), 2, b"call".to_vec(), b"args".to_vec(), None);
    for _ in 0..DEFAULT_MAX_RETRIES {
        m.mark_completed(tid(7));
        assert!(m.try_resubmit(oid(1)).is_some());
    }
    m.mark_completed(tid(7));
    assert!(m.try_resubmit(oid(2)).is_none());
    assert_eq!(m.lineage_status(oid(2)), LineageStatus::BudgetExhausted);
}

#[test]
fn mark_completed_propagates_to_all_outputs_of_same_task() {
    let mut m = TaskManager::new();
    m.record(&[oid(1), oid(2)], tid(7), 2, b"call".to_vec(), b"args".to_vec(), None);
    m.mark_completed(tid(7));
    assert_eq!(m.lineage_status(oid(1)), LineageStatus::ReadyToResubmit);
    assert_eq!(m.lineage_status(oid(2)), LineageStatus::ReadyToResubmit);
}

#[test]
fn a_resubmitted_job_is_the_recorded_one() {
    let mut m = TaskManager::new();
    m.record(&[oid(1)], tid(7), 1, b"f".to_vec(), b"a".to_vec(), Some(b"k".to_vec()));
    m.record(&[oid(2)], tid(8), 1, b"g".to_vec(), b"b".to_vec(), None);
    m.mark_completed(tid(7));
    m.mark_completed(tid(8));
    let job = m.try_resubmit(oid(1)).expect("ready");
    assert_eq!(job.task_id, tid(7));
    assert_eq!((job.callable_blob, job.args_blob), (b"f".to_vec(), b"a".to_vec()));
    assert_eq!(job.kwargs_blob.as_deref(), Some(&b"k"[..]));
    assert_eq!(m.lineage_status(oid(1)), LineageStatus::NotYetCompleted);
    assert_eq!(m.lineage_status(oid(2)), LineageStatus::ReadyToResubmit);
    assert_eq!(LineageStatus::ReadyToResubmit.name(), "ready");
    assert_eq!(LineageStatus::BudgetExhausted.name(), "exhausted");
    assert_eq!(LineageStatus::NotRecorded.name(), "not_recorded");
    assert_eq!(LineageStatus::NotYetCompleted.name(), "not_yet_completed");
}

// Jobs.

fn job(seed: u8) -> DispatchJob {
    DispatchJob {
        task_id: tid(seed),
        num_returns: 1,
        callable_blob: vec![],
        args_blob: vec![],
        kwargs_blob: None,
    }
}

fn run(d: &mut Dispatcher) -> u8 {
    match d.next_job() {
        NextJob::Run(job) => job.task_id.0[0],
        NextJob::Wait => 100,
        NextJob::Stop => 200,
    }
}

#[test]
fn jobs_run_in_order_and_none_is_lost() {
    let mut d = Dispatcher::start(2);
    assert_eq!(run(&mut d), 100);
    d.submit(job(1));
    d.submit(job(2));
    assert_eq!(d.pending(), 2);
    match d.next_job() {
        NextJob::Run(first) => d.send_failed(first),
        other => panic!("{other:?}"),
    }
    assert_eq!(run(&mut d), 1);
    d.shutdown();
    d.submit(job(3));
    assert_eq!(run(&mut d), 2);
    assert_eq!(run(&mut d), 200);
    assert!(d.is_shutdown());
}

#[test]
fn all_workers_must_come() {
    let mut d = Dispatcher::start(DEFAULT_WORKERS);
    for _ in 0..4 {
        assert!(!d.workers_ready());
        d.worker_registered();
    }
    assert!(d.workers_ready());
    assert_eq!(d.registered_workers(), 4);
    assert_eq!(
        workers_missing(4),
        "rayd dispatcher: only some of 4 worker subprocesses connected back within 5s"
    );
}

fn entry(id: &[u8], metadata: &[u8], size: u64) -> ReturnEntry {
    ReturnEntry {
        object_id: Some(id.to_vec()),
        metadata: Some(metadata.to_vec()),
        data_size: Some(size),
    }
}

#[test]
fn reports_are_taken_in_up_to_the_first_fault() {
    let mut worker = CoreWorker::new_local();
    let mut tasks = TaskManager::new();
    tasks.record(&[oid(1)], tid(7), 1, vec![], vec![], None);
    let failed = Metadata::Error { category: ErrorCategory::TaskException, raw_code: 1 };
    let mut entries = vec![
        entry(&oid(1).0, &Metadata::Raw.encode(), 5),
        entry(&oid(2).0, &failed.encode(), 6),
        entry(&[1, 2], &Metadata::Raw.encode(), 7),
        entry(&oid(3).0, &Metadata::Raw.encode(), 8),
    ];
    let r = complete_job(&mut worker, &mut tasks, tid(7), "task_complete", Some(&entries));
    assert_eq!((r.completed, r.failed), (1, 1));
    assert_eq!(r.error.as_deref(), Some("object_id wrong length: 2"));
    assert_eq!(worker.store().state_of(&oid(1)), RefState::ReadyLocal);
    assert_eq!(worker.store().state_of(&oid(2)), RefState::Failed);
    assert_eq!(worker.store().state_of(&oid(3)), RefState::Pending);
    assert_eq!(tasks.lineage_status(oid(1)), LineageStatus::NotYetCompleted);

    entries.remove(2);
    let r = complete_job(&mut worker, &mut tasks, tid(7), "task_complete", Some(&entries));
    assert_eq!((r.completed, r.failed, r.error), (2, 1, None));
    assert_eq!(tasks.lineage_status(oid(1)), LineageStatus::ReadyToResubmit);
}

#[test]
fn odd_reports_are_refused() {
    let mut worker = CoreWorker::new_local();
    let r = handle_completion(&mut worker, "hello", None);
    assert_eq!(r.error.as_deref(), Some("expected task_complete, got hello"));
    let r = handle_completion(&mut worker, "task_complete", None);
    assert_eq!(r.error.as_deref(), Some("missing 'returns'"));
    let mut e = entry(&oid(1).0, &[99], 1);
    assert_eq!(
        parse_return(&e).unwrap_err(),
        "could not decode metadata: unknown metadata discriminator: 99"
    );
    e.data_size = None;
    assert_eq!(parse_return(&e).unwrap_err(), "missing 'data_size'");
    e.metadata = None;
    assert_eq!(parse_return(&e).unwrap_err(), "missing 'metadata'");
    e.object_id = None;
    assert_eq!(parse_return(&e).unwrap_err(), "missing 'object_id'");
    assert!(worker.store().is_empty());
}

#[test]
fn frames_to_workers_carry_their_length() {
    assert_eq!(send_frame(b"abc").unwrap(), b"\x03\0\0\0abc");
    assert_eq!(recv_length(&[3, 0, 0, 0]).unwrap(), 3);
    assert_eq!(recv_length(&(MAX_FRAME_BYTES as u32).to_le_bytes()).unwrap(), MAX_FRAME_BYTES);
    assert_eq!(
        recv_length(&(MAX_FRAME_BYTES as u32 + 1).to_le_bytes()).unwrap_err(),
        "dispatch frame too large: 67108865 bytes"
    );
}

// Settings.

#[test]
fn settings_fall_back() {
    assert_eq!(parse_num_workers(None), 4);
    assert_eq!(parse_num_workers(Some("7")), 7);
    assert_eq!(parse_num_workers(Some("+12")), 12);
    for odd in ["", "0", "-1", "+", "1 ", "x", "1_0", "99999999999999999999999"] {
        assert_eq!(parse_num_workers(Some(odd)), 4, "{odd}");
    }
    assert_eq!(parse_spill_budget(Some("18446744073709551615")), u64::MAX);
    assert_eq!(parse_spill_budget(Some("18446744073709551616")), DEFAULT_SPILL_BUDGET_BYTES);
    assert_eq!(parse_spill_budget(None), 1_073_741_824);
    assert_eq!(heartbeat_interval_ms(Some("250")), 250);
    assert_eq!(heartbeat_interval_ms(Some("0")), 2_000);
    assert_eq!(default_resources(8).num_cpus, 8);
    assert_eq!(default_resources(usize::MAX).num_cpus, 1);
}

#[test]
fn a_set_socket_must_exist() {
    assert!(matches!(resolve_plasma_socket(None, false), Ok(PlasmaSocket::StartServer)));
    assert!(matches!(
        resolve_plasma_socket(Some("/s".into()), true),
        Ok(PlasmaSocket::At(p)) if p == "/s"
    ));
    assert_eq!(
        resolve_plasma_socket(Some("/s".into()), false).unwrap_err(),
        "RAYD_PLASMA_SOCKET points at /s which doesn't exist; start a plasma server first \
         (`rayd plasma-server <path>`)"
    );
}

#[test]
fn the_command_line_decides() {
    assert_eq!(start_mode(true, true), Ok(StartMode::Head));
    assert_eq!(start_mode(false, true), Ok(StartMode::Worker));
    assert!(start_mode(false, false).unwrap_err().contains("--head"));
    assert_eq!(capacity_bytes(128), Some(134_217_728));
    assert_eq!(capacity_bytes(u64::MAX / 1_048_576), Some(u64::MAX - 1_048_575));
    assert_eq!(capacity_bytes(u64::MAX / 1_048_576 + 1), None);
    assert_eq!(advertise_host(Some("a".into()), Some("b".into())), "a");
    assert_eq!(advertise_host(None, Some("b".into())), "b");
    assert_eq!(advertise_host(None, None), "127.0.0.1");
}

// Values.

fn resolved(metadata: Metadata, data: &[u8]) -> Option<ResolvedObject> {
    Some(ResolvedObject { metadata, data: data.to_vec(), nested_refs: vec![] })
}

fn failure(payload: ErrorPayload) -> Option<ResolvedObject> {
    let metadata = Metadata::Error { category: ErrorCategory::WorkerDied, raw_code: 9 };
    resolved(metadata, &payload.encode())
}

#[test]
fn values_are_put_where_they_belong() {
    let mut worker = CoreWorker::new_local();
    let plan = put(&mut worker, vec![1, 2, 3], None);
    assert!(matches!(plan.seal, Ok(SealStep::Stored)));
    assert!(!plan.register_self);
    assert_eq!(plan.reference.owner_node_id(), None);
    assert_eq!(worker.store().get_inline(&plan.object_id).unwrap().data, vec![1, 2, 3]);

    let plan = put(&mut worker, vec![1], Some([6; 16]));
    assert_eq!(
        seal_failed(&plan.seal.unwrap_err()),
        format!(
            "seal failed: object {} is plasma-resident but no plasma client is connected",
            plan.object_id.hex()
        )
    );
    worker.connect_plasma();
    let plan = put(&mut worker, vec![1], Some([6; 16]));
    assert!(plan.register_self);
    assert_eq!(plan.reference.owner_node_id(), Some([6; 16]));
    match plan.seal {
        Ok(SealStep::Write(w)) => {
            assert_eq!(w.metadata, Metadata::Pickle5 { has_nested_refs: false }.encode());
            assert_eq!(w.data, vec![1]);
        }
        other => panic!("{other:?}"),
    }
    assert_eq!(&plan.object_id.0[16..24], &[3, 0, 0, 0, 0, 0, 0, 0]);
}

#[test]
fn a_value_is_got_by_its_kind() {
    let id = oid(1);
    let pickle = Metadata::Pickle5 { has_nested_refs: true };
    assert!(matches!(get_one(&id, resolved(pickle, b"p")), GetOutcome::Pickle(d) if d == b"p"));
    assert!(matches!(
        get_one(&id, resolved(Metadata::Raw, b"r")),
        GetOutcome::Raw(d) if d == b"r"
    ));
    assert!(matches!(
        get_one(&id, resolved(Metadata::ActorHandle, b"")),
        GetOutcome::NotImplemented(m) if m == "actor handle deserialization lands in Phase 5"
    ));
    match get_one(&id, None) {
        GetOutcome::TimedOut(m) => assert_eq!(
            m,
            format!("rayd.get timed out waiting for ObjectRef({})", id.hex())
        ),
        other => panic!("{other:?}"),
    }
    match get_one(&id, failure(ErrorPayload::new("boom").with_pickled_exception(vec![8]))) {
        GetOutcome::Raise { pickled, message } => {
            assert_eq!(pickled, Some(vec![8]));
            assert_eq!(message, "rayd task failed: category=WorkerDied; boom");
        }
        other => panic!("{other:?}"),
    }
    let broken = resolved(
        Metadata::Error { category: ErrorCategory::WorkerDied, raw_code: 0 },
        &[1, 0],
    );
    match get_one(&id, broken) {
        GetOutcome::Corrupted(m) => assert_eq!(
            m,
            "corrupted error payload: error payload truncated: needed 2 more bytes"
        ),
        other => panic!("{other:?}"),
    }
}

#[test]
fn failures_settle_as_values() {
    assert_eq!(settle(None).label(), Some("pending"));
    assert_eq!(settle(resolved(Metadata::Raw, b"")).label(), Some("ok"));
    match settle(failure(ErrorPayload::new("boom").with_traceback("tb").with_raw_code(1))) {
        Settled::Failed(info) => {
            assert_eq!(info.category, ErrorCategory::WorkerDied);
            assert_eq!(info.message, "boom");
            assert_eq!(info.traceback.as_deref(), Some("tb"));
            assert_eq!(info.raw_code, 9);
            assert_eq!(
                error_info_repr(&info),
                "ErrorInfo(category=WorkerDied, message=\"boom\", raw_code=9)"
            );
        }
        other => panic!("{other:?}"),
    }
    assert_eq!(settle(resolved(Metadata::ActorHandle, b"")).label(), None);
    assert!(error_info_from_object(ErrorCategory::OwnerDied, 0, &[0xff; 9]).is_err());
}

#[test]
fn errors_can_be_peeked_at() {
    let failed = failure(ErrorPayload::new("boom").with_pickled_exception(vec![4, 2]));
    assert_eq!(peek_error(&failed).expect("failed").message, "boom");
    assert_eq!(exception(&failed).unwrap(), Some(vec![4, 2]));
    assert_eq!(exception(&failure(ErrorPayload::new("x"))).unwrap(), None);
    assert!(peek_error(&resolved(Metadata::Raw, b"x")).is_none());
    assert!(peek_error(&None).is_none());
    assert_eq!(exception(&resolved(Metadata::Raw, b"x")).unwrap(), None);
    let broken =
        resolved(Metadata::Error { category: ErrorCategory::OwnerDied, raw_code: 0 }, &[]);
    assert!(peek_error(&broken).is_none());
    assert!(exception(&broken).unwrap_err().starts_with("corrupted error payload: "));
}

#[test]
fn objects_of_other_nodes_are_ready_there() {
    let (a, b) = (Some([1; 16]), Some([2; 16]));
    assert_eq!(ref_state(RefState::Pending, a, b), RefState::ReadyRemote);
    assert_eq!(ref_state(RefState::Pending, a, a), RefState::Pending);
    assert_eq!(ref_state(RefState::Pending, a, None), RefState::Pending);
    assert_eq!(ref_state(RefState::Pending, None, b), RefState::Pending);
    assert_eq!(ref_state(RefState::Failed, a, b), RefState::Failed);
}

#[test]
fn waiting_splits_ready_from_not_ready() {
    let mut worker = CoreWorker::new_local();
    worker.seal_value(oid(1), Metadata::Raw, vec![1]);
    let ids = [oid(1), oid(2)];
    assert_eq!(states(&worker, &ids), vec![RefState::ReadyLocal, RefState::Pending]);
    assert_eq!(wait(&worker, &ids, 1, false), Some(vec![true, false]));
    assert_eq!(wait(&worker, &ids, 2, false), None);
    assert_eq!(wait(&worker, &ids, 2, true), Some(vec![true, false]));
    worker.free(&ids);
    assert_eq!(states(&worker, &ids), vec![RefState::Pending, RefState::Pending]);
}

#[test]
fn a_submitted_task_is_noted_and_queued() {
    let mut worker = CoreWorker::new_local();
    let mut tasks = TaskManager::new();
    let mut d = Dispatcher::start(1);
    let e = submit_task(&mut worker, &mut tasks, &mut d, 0, vec![], vec![], None).unwrap_err();
    assert_eq!(e, "num_returns must be >= 1");
    let refs =
        submit_task(&mut worker, &mut tasks, &mut d, 3, vec![1], vec![2], Some(vec![3])).unwrap();
    assert_eq!(refs.len(), 3);
    let first = *refs[0].object_id();
    assert_eq!(refs[2].object_id().return_index(), 2);
    assert_eq!(tasks.len(), 3);
    assert_eq!(d.pending(), 1);
    match d.next_job() {
        NextJob::Run(job) => {
            assert_eq!(job.task_id, first.task_id());
            assert_eq!((job.num_returns, job.kwargs_blob), (3, Some(vec![3])));
        }
        other => panic!("{other:?}"),
    }
    assert!(!try_resubmit_for_lineage(&mut tasks, &mut d, first));
    tasks.mark_completed(first.task_id());
    assert!(try_resubmit_for_lineage(&mut tasks, &mut d, first));
    assert_eq!(d.pending(), 1);
}

#[test]
fn dropped_references_give_up_their_pin() {
    let mut worker = CoreWorker::new_local();
    let id = oid(4);
    worker.seal_value(id, Metadata::Raw, vec![1]);
    let address = Address::new("h", 1, WorkerId::nil());
    let remote = ObjectRef::new(id, address).with_owner_node_id([1; 16]);
    let plan = drop_ref(&mut worker, &remote, false, Some([2; 16]));
    assert_eq!((plan.freed, plan.notify), (FreeStep::Kept, None));
    worker.inc_local_ref(id);
    let plan = drop_ref(&mut worker, &remote, true, Some([2; 16]));
    assert_eq!((plan.freed, plan.notify), (FreeStep::Kept, Some([1; 16])));
    let plan = drop_ref(&mut worker, &remote, true, Some([1; 16]));
    assert_eq!(plan.freed, FreeStep::Freed { delete_from_plasma: false });
    assert_eq!(plan.notify, None);
}

#[test]
fn identifiers_are_checked() {
    assert_eq!(sized::<28>(&[1; 28], "ObjectId").unwrap(), [1; 28]);
    assert_eq!(
        sized::<28>(&[1; 3], "ObjectId").unwrap_err(),
        "ObjectId requires 28 bytes, got 3"
    );
    assert_eq!(owner_node(None).unwrap(), None);
    assert_eq!(owner_node(Some(&[5; 16])).unwrap(), Some([5; 16]));
    assert_eq!(
        owner_node(Some(&[5; 4])).unwrap_err(),
        "owner_node_id must be 16 bytes, got 4"
    );
    let mut worker = CoreWorker::new_local();
    let minted = mint_actor_result_ref(&mut worker, Some(&[7; 16])).unwrap();
    assert_eq!(minted.owner_node_id(), Some([7; 16]));
    assert_eq!(
        mint_actor_result_ref(&mut worker, Some(&[7; 2])).unwrap_err(),
        "node_id requires 16 bytes, got 2"
    );
    let later = mint_actor_result_ref(&mut worker, None).unwrap();
    assert_eq!(&later.object_id().0[16..24], &[3, 0, 0, 0, 0, 0, 0, 0]);
}

#[test]
fn there_is_room_for_a_value() {
    let mut worker = CoreWorker::new_local();
    assert!(can_put(&worker, 10));
    assert!(can_put(&worker, usize::MAX - 2));
    assert!(!can_put(&worker, usize::MAX - 1));
    let upcoming = worker.upcoming_task_id().expect("task identifiers are left");
    assert!(can_count(&worker, ObjectId::for_return(&upcoming, 0)));
    assert_eq!(worker.next_task_id().0, upcoming.0);
    assert_ne!(worker.upcoming_task_id().unwrap().0, upcoming.0);
}

#[test]
fn values_of_other_processes_are_recorded() {
    let mut worker = CoreWorker::new_local();
    let id = record_plasma_seal(&mut worker, &oid(1).0, &Metadata::Raw.encode(), 77).unwrap();
    assert_eq!(worker.store().state_of(&id), RefState::ReadyLocal);
    assert_eq!(worker.refs().snapshot(id).unwrap().local_count, 1);
    assert_eq!(
        record_plasma_seal(&mut worker, &oid(1).0, &[], 1).unwrap_err(),
        "invalid metadata: metadata buffer is empty"
    );
    assert_eq!(
        record_plasma_seal(&mut worker, &[1], &[], 1).unwrap_err(),
        "object_id requires 28 bytes, got 1"
    );
    assert_eq!(
        worker_seal(&worker, &[1], &[2], vec![]).unwrap_err(),
        "object_id must be 28 bytes, got 1"
    );
    assert_eq!(
        worker_seal(&worker, &oid(1).0, &[], vec![]).unwrap_err(),
        "invalid metadata: metadata buffer is empty"
    );
    assert!(worker_seal(&worker, &oid(1).0, &[2], vec![])
        .unwrap_err()
        .starts_with("seal failed: object "));
    worker.connect_plasma();
    let w = worker_seal(&worker, &oid(1).0, &[2, 9], vec![5]).unwrap();
    assert_eq!((w.object_id, w.metadata, w.data), (oid(1), vec![2], vec![5]));
}

// The cluster.

fn node(id: u8, host: &str, port: u32) -> NodeInfo {
    NodeInfo {
        address: Some(NodeAddress {
            host: host.into(),
            port,
            node_id: vec![id; 16],
            plasma_socket: "s".into(),
        }),
        resources: Some(Resources { num_cpus: 2, num_gpus: 1, memory_bytes: 3 }),
        status: 1,
        registered_at_unix_ms: 5,
        last_heartbeat_unix_ms: 6,
    }
}

#[test]
fn nodes_are_found_by_identifier() {
    let mut lost = node(9, "x", 1);
    lost.address = None;
    let nodes = vec![node(1, "a", 10), lost, node(2, "b", 20), node(3, "c", 70_000)];
    assert_eq!(raylet_addr_for(&nodes, &[2; 16]), Some(("b".to_owned(), 20)));
    assert_eq!(owner_addr_for(&nodes, &[2; 16]), Some(("b".to_owned(), 20)));
    assert_eq!(owner_addr_for(&nodes, &[4; 16]), None);
    assert_eq!(owner_addr_for(&nodes, &[1; 16]), Some(("a".to_owned(), 10)));
    assert_eq!(raylet_addr_for(&nodes, &[3; 16]), None);
    assert_eq!(
        fetch_owner(&nodes, &[4; 16]).unwrap_err(),
        "owner node 04040404 not found in GCS"
    );
    assert_eq!(fetch_owner(&nodes, &[1; 16]).unwrap(), ("a".to_owned(), 10));
    assert_eq!(node_not_found("owner", &[4; 16]), "owner node 04040404 not found in GCS");
}

#[test]
fn another_holder_is_preferred() {
    let local = [1; 16];
    assert_eq!(choose_holder(&vec![local, [2; 16]], &local, &[0; 28]).unwrap(), [2; 16]);
    assert_eq!(choose_holder(&vec![local], &local, &[0; 28]).unwrap(), local);
    assert_eq!(
        choose_holder(&vec![], &local, &[0xEE; 28]).unwrap_err(),
        "no holder registered for object eeeeeeee"
    );
    let nodes = vec![node(2, "b", 20)];
    assert_eq!(
        fetch_holder(&nodes, &vec![local, [2; 16]], &local, &[0; 28]).unwrap(),
        ("b".to_owned(), 20)
    );
    assert_eq!(
        fetch_holder(&nodes, &vec![[3; 16]], &local, &[0; 28]).unwrap_err(),
        "holder node 03030303 not found in GCS"
    );
    assert_eq!(short_hex_28(&[0x1F; 28]), "1f1f1f1f");
}

#[test]
fn a_fetched_object_is_sealed_here() {
    assert!(fetch_begin(&[1; 28], &[2; 16]).is_ok());
    assert_eq!(fetch_begin(&[1; 2], &[2; 1]).unwrap_err(), "object_id requires 28 bytes, got 2");
    assert_eq!(fetch_begin(&[1; 28], &[2; 1]).unwrap_err(), "node_id requires 16 bytes, got 1");
    let mut worker = CoreWorker::new_local();
    let pulled = |m: &[u8]| PulledObject { metadata: m.to_vec(), data: vec![7] };
    assert_eq!(
        fetch_pulled(&worker, &[1; 28], pulled(&[77])).unwrap_err(),
        "decode metadata: unknown metadata discriminator: 77"
    );
    assert!(fetch_pulled(&worker, &[1; 28], pulled(&[2]))
        .unwrap_err()
        .starts_with("seal_into_plasma: object "));
    worker.connect_plasma();
    let (m, w) = fetch_pulled(&worker, &[1; 28], pulled(&[2])).unwrap();
    assert_eq!((m, w.data), (Metadata::Raw, vec![7]));
    let failed = |kind| {
        CoreError::Plasma(PlasmaError::Server { kind, message: "m".into() })
    };
    assert!(fetch_sealed(Ok(1)).is_ok());
    assert!(fetch_sealed(Err(failed(ServerErrorKind::AlreadyExists))).is_ok());
    assert_eq!(
        fetch_sealed(Err(failed(ServerErrorKind::OutOfMemory))).unwrap_err(),
        "seal_into_plasma: plasma: plasma server error: OutOfMemory: m"
    );
}

#[test]
fn rows_are_shown() {
    let row = convert_node(node(1, "a\"", 10));
    assert_eq!(
        node_repr(&row),
        "NodeInfo(host=\"a\\\"\", port=10, status=\"alive\", resources=Resources(num_cpus=2, \
         num_gpus=1, memory_bytes=3))"
    );
    assert_eq!(resources_repr(&row.resources), "Resources(num_cpus=2, num_gpus=1, memory_bytes=3)");
    let mut bare = node(1, "a", 1);
    bare.address = None;
    bare.resources = None;
    let row = convert_node(bare);
    assert_eq!((row.host.as_str(), row.port, row.resources.num_cpus), ("", 0, 0));
    let job = convert_job(JobInfo {
        job_id: vec![1],
        driver_host: "d".into(),
        driver_pid: 5,
        node_id: vec![],
        status: 3,
        registered_at_unix_ms: 1,
        finished_at_unix_ms: 2,
    });
    assert_eq!(job_repr(&job), "JobInfo(driver_host=\"d\", driver_pid=5, status=\"failed\")");
    assert_eq!(actor_repr("n", 3), "ActorInfo(name=\"n\", owner_pid=3)");
    assert_eq!(object_id_repr(&oid(1)), format!("ObjectId({})", oid(1).hex()));
    let address = Address::new("h", 9, WorkerId::nil());
    assert_eq!(
        address_repr(&address),
        format!("Address(host=\"h\", port=9, worker_id={})", "00".repeat(16))
    );
    assert_eq!((node_status_str(0), node_status_str(2), node_status_str(3)), ("unspecified", "draining", "dead"));
    assert_eq!((job_status_str(1), job_status_str(2), job_status_str(9)), ("running", "finished", "unspecified"));
    assert_eq!(ErrorInfo::new(ErrorCategory::ObjectLost, "m").category.name(), "ObjectLost");
}

// Log events.

#[test]
fn log_fields_make_a_message() {
    let mut v = MessageVisitor::new();
    v.record_debug("message", "hello");
    v.record_debug("a", "1");
    v.record_debug("b", "\"x\"");
    assert_eq!(v.message, "hello a=1 b=\"x\"");
    let mut v = MessageVisitor::new();
    v.record_debug("a", "1");
    v.record_debug("message", "tail");
    assert_eq!(v.message, "a=1tail");
    assert_eq!(python_line("t", "m"), "t: m");
    let levels =
        [LogLevel::Trace, LogLevel::Debug, LogLevel::Info, LogLevel::Warn, LogLevel::Error];
    assert_eq!(levels.map(level_to_python), [10, 10, 20, 30, 40]);
    assert!(forward_enabled(Some("1")));
    assert!(!forward_enabled(Some("true")) && !forward_enabled(None));
}

struct Counting(std::cell::Cell<usize>);

impl EventHandler for Counting {
    fn handle(&self, level: LogLevel, target: &str, message: &str) {
        assert_eq!((level, target, message), (LogLevel::Warn, "rayd", "m"));
        self.0.set(self.0.get() + 1);
    }
}

#[test]
fn handlers_take_events() {
    let handler = Counting(std::cell::Cell::new(0));
    let dynamic: &dyn EventHandler = &handler;
    dynamic.handle(LogLevel::Warn, "rayd", "m");
    assert_eq!(handler.0.get(), 1);
}

#[test]
fn the_driver_counts_what_it_does() {
    let mut worker = CoreWorker::new_local();
    worker.seal_value(oid(1), Metadata::Raw, vec![1]);
    let mut m = DriverMetrics::new();
    m.task_submitted();
    m.value_put();
    m.value_asked_for();
    m.value_asked_for();
    let failed = Metadata::Error { category: ErrorCategory::TaskException, raw_code: 1 };
    let entries =
        vec![entry(&oid(2).0, &Metadata::Raw.encode(), 5), entry(&oid(3).0, &failed.encode(), 6)];
    let r = handle_completion(&mut worker, "task_complete", Some(&entries));
    m.ingested(&r);
    let body = m.encode_text(&worker).expect("text");
    for line in [
        "rayd_driver_tasks_submitted_total 1",
        "rayd_driver_tasks_completed_total 1",
        "rayd_driver_tasks_failed_total 1",
        "rayd_driver_puts_total 1",
        "rayd_driver_gets_total 2",
        "rayd_driver_refs_alive 1",
    ] {
        assert!(body.contains(line), "{line}: {body}");
    }
}

#[test]
fn results_are_different_objects() {
    let mut worker = CoreWorker::new_local();
    let mut tasks = TaskManager::new();
    let mut d = Dispatcher::start(1);
    let mut seen = std::collections::BTreeSet::new();
    for n in 1..4u32 {
        let refs = submit_task(&mut worker, &mut tasks, &mut d, n, vec![], vec![], None).unwrap();
        for r in refs {
            assert!(seen.insert(r.object_id().0));
        }
    }
    assert_eq!((seen.len(), tasks.len(), d.pending()), (6, 6, 3));
}
