use tg_rs::mock::{
    MemoryDownloadBackend, MemoryDownloadSink, MemoryUploadSource, RecordingUploadBackend,
};
use tg_rs::planner::TransferPlanner;
use tg_rs::runtime::{
    align_precise_limit, DownloadRequest, ParallelDownloadEngine, ParallelUploadEngine, PartSlot,
    TransferRuntimeError, UploadPart,
};
use tg_rs::telegram::{validate_download_request, AccountTier, AppConfigHints, TelegramRuleError};
use tg_rs::transfer::{
    AccelerationPolicy, TransferDirection, TransferFeatureConfig, TransferJob, TransferPlan,
};

fn aggressive() -> TransferFeatureConfig {
    TransferFeatureConfig {
        policy: AccelerationPolicy::Aggressive,
        ..Default::default()
    }
}

#[test]
fn planner_uses_parallel_upload_for_big_files() {
    let planner = TransferPlanner::new(aggressive(), AppConfigHints::default());
    let job = TransferJob::new(
        "archive.bin",
        128 * 1024 * 1024,
        TransferDirection::Upload,
        AccountTier::Premium,
    );

    let plan = planner.plan(&job).expect("plan");

    assert!(plan.big_file_api);
    assert!(plan.worker_count >= 4);
    assert_eq!(plan.part_size, 512 * 1024);
}

#[test]
fn upload_engine_sends_all_bytes() {
    let planner = TransferPlanner::default();
    let job = TransferJob::new(
        "video.mp4",
        12 * 1024 * 1024,
        TransferDirection::Upload,
        AccountTier::Free,
    );
    let plan = planner.plan(&job).expect("plan");

    let data: Vec<u8> = (0..job.total_bytes as usize)
        .map(|index| (index % 251) as u8)
        .collect();
    let source = MemoryUploadSource::new(data.clone());
    let mut backend = RecordingUploadBackend::default();

    let mut engine = ParallelUploadEngine::new(plan);
    engine
        .run_in_memory(&source, &mut backend, job.total_bytes)
        .expect("upload");
    let report = engine.report(0);

    assert_eq!(report.total_bytes, job.total_bytes);
    assert_eq!(backend.assembled(), data);
}

#[test]
fn download_engine_writes_all_bytes() {
    let planner = TransferPlanner::new(aggressive(), AppConfigHints::default());
    let job = TransferJob::new(
        "dataset.zip",
        6 * 1024 * 1024 + 333,
        TransferDirection::Download,
        AccountTier::Premium,
    );
    let plan = planner.plan(&job).expect("plan");

    let data: Vec<u8> = (0..job.total_bytes as usize)
        .map(|index| (index % 239) as u8)
        .collect();
    let backend = MemoryDownloadBackend::new(data.clone());
    let mut sink = MemoryDownloadSink::new(job.total_bytes as usize);

    let mut engine = ParallelDownloadEngine::new(plan);
    engine
        .run_in_memory(&backend, &mut sink, job.total_bytes)
        .expect("download");
    let report = engine.report(0);

    assert_eq!(report.total_bytes, job.total_bytes);
    assert_eq!(sink.bytes(), data);
}

fn plan_of(direction: TransferDirection, part_size: usize, total_parts: usize) -> TransferPlan {
    let planner = TransferPlanner::default();
    let job = TransferJob::new("x", 1, direction, AccountTier::Free);
    let mut plan = planner.plan(&job).expect("plan");
    plan.part_size = part_size;
    plan.total_parts = total_parts;
    plan.worker_count = 3;
    plan
}

#[test]
fn engines_refuse_mismatched_and_empty_plans() {
    let mut upload = ParallelUploadEngine::new(plan_of(TransferDirection::Download, 1024, 2));
    assert!(matches!(upload.begin(10), Err(TransferRuntimeError::DirectionMismatch)));
    let mut upload = ParallelUploadEngine::new(plan_of(TransferDirection::Upload, 1024, 0));
    assert!(matches!(upload.begin(10), Err(TransferRuntimeError::EmptyPlan)));
    let mut download = ParallelDownloadEngine::new(plan_of(TransferDirection::Upload, 1024, 2));
    assert!(matches!(download.begin(10), Err(TransferRuntimeError::DirectionMismatch)));
    let mut download = ParallelDownloadEngine::new(plan_of(TransferDirection::Download, 1024, 0));
    assert!(matches!(download.begin(10), Err(TransferRuntimeError::EmptyPlan)));
}

#[test]
fn upload_engine_hands_out_each_part_once_in_order() {
    let mut engine = ParallelUploadEngine::new(plan_of(TransferDirection::Upload, 1000, 3));
    engine.begin(2500).expect("begin");
    assert_eq!(
        engine.claim_part(),
        Some(PartSlot { index: 0, offset: 0, len: 1000 })
    );
    assert_eq!(
        engine.claim_part(),
        Some(PartSlot { index: 1, offset: 1000, len: 1000 })
    );
    assert_eq!(
        engine.claim_part(),
        Some(PartSlot { index: 2, offset: 2000, len: 500 })
    );
    engine.finish_part();
    assert_eq!(engine.claim_part(), None);
    let report = engine.report(7);
    assert_eq!(report.peak_in_flight_parts, 3);
    assert_eq!(report.total_parts, 3);
    assert_eq!(report.workers_used, 3);
    assert_eq!(report.elapsed_ms, 7);
}

#[test]
fn upload_engine_reports_short_reads() {
    let mut engine = ParallelUploadEngine::new(plan_of(TransferDirection::Upload, 1000, 2));
    engine.begin(1500).expect("begin");
    let slot = engine.claim_part().expect("slot");
    let outcome = engine.accept_read(&slot, vec![0u8; 10]);
    assert!(matches!(
        outcome,
        Err(TransferRuntimeError::ShortRead { part_index: 0, expected: 1000, actual: 10 })
    ));
    let slot = engine.claim_part().expect("slot");
    let part = engine.accept_read(&slot, vec![7u8; 500]).expect("part");
    assert_eq!(part.offset, 1000);
    assert_eq!(part.part_index, 1);
    assert_eq!(part.total_parts, 2);
    assert_eq!(part.bytes.len(), 500);
}

#[test]
fn download_engine_aligns_requests_and_checks_answers() {
    let mut engine = ParallelDownloadEngine::new(plan_of(TransferDirection::Download, 512 * 1024, 2));
    engine.begin(512 * 1024 + 100).expect("begin");
    let first = engine.claim_request().expect("claim").expect("request");
    assert_eq!((first.offset, first.len, first.write_len), (0, 512 * 1024, 512 * 1024));
    let second = engine.claim_request().expect("claim").expect("request");
    assert_eq!((second.offset, second.len, second.write_len), (512 * 1024, 1024, 100));
    assert!(engine.claim_request().is_none());
    assert!(matches!(
        engine.accept_download(&second, &[0u8; 99]),
        Err(TransferRuntimeError::ShortDownload { part_index: 1, expected: 100, actual: 99 })
    ));
    assert!(engine.accept_download(&first, &vec![0u8; 512 * 1024]).is_ok());
}

#[test]
fn download_engine_reports_requests_that_cross_a_window() {
    // 768 KiB parts: the second part starts at 768 KiB and runs past 1 MiB.
    let mut engine = ParallelDownloadEngine::new(plan_of(TransferDirection::Download, 768 * 1024, 2));
    engine.begin(1536 * 1024).expect("begin");
    assert!(engine.claim_request().expect("claim").is_ok());
    let second = engine.claim_request().expect("claim");
    assert!(matches!(
        second,
        Err(TransferRuntimeError::Rules(TelegramRuleError::PreciseWindowCrossed {
            offset: 786432,
            limit: 786432
        }))
    ));
}

#[test]
fn aligned_limits_round_up_to_one_kib() {
    assert_eq!(align_precise_limit(0), 0);
    assert_eq!(align_precise_limit(1), 1024);
    assert_eq!(align_precise_limit(1024), 1024);
    assert_eq!(align_precise_limit(1025), 2048);
    assert_eq!(align_precise_limit(333), 1024);
}

#[test]
fn memory_source_reads_windows() {
    let source = MemoryUploadSource::new(vec![1, 2, 3, 4, 5]);
    assert_eq!(source.read_at(1, 3).expect("read"), vec![2, 3, 4]);
    assert_eq!(source.read_at(5, 0).expect("read"), Vec::<u8>::new());
    match source.read_at(3, 3) {
        Err(TransferRuntimeError::Message(message)) => {
            assert_eq!(message, "upload source out of bounds")
        }
        other => panic!("unexpected {:?}", other),
    }
}

#[test]
fn memory_backend_answers_write_len_bytes() {
    let backend = MemoryDownloadBackend::new(vec![9, 8, 7, 6]);
    let request = DownloadRequest {
        job_id: uuid::Uuid::nil(),
        part_index: 0,
        offset: 2,
        len: 1024,
        write_len: 2,
    };
    assert_eq!(backend.download_part(request).expect("part"), vec![7, 6]);
    let past = DownloadRequest { offset: 3, ..request };
    match backend.download_part(past) {
        Err(TransferRuntimeError::Message(message)) => {
            assert_eq!(message, "download source out of bounds")
        }
        other => panic!("unexpected {:?}", other),
    }
}

#[test]
fn sink_writes_in_any_order_restore_the_file() {
    let data: Vec<u8> = (0..10u8).collect();
    let mut sink = MemoryDownloadSink::new(10);
    assert_eq!(sink.bytes(), vec![0; 10]);
    sink.write_at(8, &data[8..10]).expect("write");
    sink.write_at(0, &data[0..4]).expect("write");
    sink.write_at(4, &data[4..8]).expect("write");
    assert_eq!(sink.bytes(), data);
    match sink.write_at(9, &[1, 2]) {
        Err(TransferRuntimeError::Message(message)) => {
            assert_eq!(message, "download sink out of bounds")
        }
        other => panic!("unexpected {:?}", other),
    }
    assert_eq!(sink.bytes(), data);
}

fn part(offset: u64, bytes: Vec<u8>) -> UploadPart {
    UploadPart {
        job_id: uuid::Uuid::nil(),
        part_index: 0,
        offset,
        total_parts: 3,
        is_big_file: false,
        bytes,
    }
}

#[test]
fn recorded_parts_assemble_in_offset_order() {
    let mut backend = RecordingUploadBackend::default();
    backend.upload_part(part(4, vec![5, 6])).expect("part");
    backend.upload_part(part(0, vec![1, 2])).expect("part");
    backend.upload_part(part(2, vec![3, 4])).expect("part");
    assert_eq!(backend.assembled(), vec![1, 2, 3, 4, 5, 6]);
    // Parts with the same offset keep their arrival order.
    backend.upload_part(part(2, vec![9])).expect("part");
    assert_eq!(backend.assembled(), vec![1, 2, 3, 4, 9, 5, 6]);
}

#[test]
fn upload_run_stops_at_the_first_unreadable_part() {
    let planner = TransferPlanner::default();
    let job = TransferJob::new("short.bin", 1024 * 1024, TransferDirection::Upload, AccountTier::Free);
    let plan = planner.plan(&job).expect("plan");
    assert_eq!(plan.total_parts, 2);
    let source = MemoryUploadSource::new(vec![3u8; 600 * 1024]);
    let mut backend = RecordingUploadBackend::default();
    let mut engine = ParallelUploadEngine::new(plan);
    match engine.run_in_memory(&source, &mut backend, job.total_bytes) {
        Err(TransferRuntimeError::Message(message)) => {
            assert_eq!(message, "upload source out of bounds")
        }
        other => panic!("unexpected {:?}", other),
    }
    assert_eq!(backend.assembled(), vec![3u8; 512 * 1024]);
}

#[test]
fn download_run_into_a_small_sink_fails() {
    let planner = TransferPlanner::default();
    let job = TransferJob::new("d.bin", 3000, TransferDirection::Download, AccountTier::Free);
    let plan = planner.plan(&job).expect("plan");
    let backend = MemoryDownloadBackend::new(vec![1u8; 3000]);
    let mut sink = MemoryDownloadSink::new(100);
    let mut engine = ParallelDownloadEngine::new(plan);
    match engine.run_in_memory(&backend, &mut sink, job.total_bytes) {
        Err(TransferRuntimeError::Message(message)) => {
            assert_eq!(message, "download sink out of bounds")
        }
        other => panic!("unexpected {:?}", other),
    }
}

#[test]
fn sequential_runs_report_one_part_in_flight() {
    let planner = TransferPlanner::new(aggressive(), AppConfigHints::default());
    let job = TransferJob::new("d.bin", 3 * 1024 * 1024, TransferDirection::Download, AccountTier::Free);
    let plan = planner.plan(&job).expect("plan");
    let data = vec![5u8; 3 * 1024 * 1024];
    let backend = MemoryDownloadBackend::new(data.clone());
    let mut sink = MemoryDownloadSink::new(data.len());
    let mut engine = ParallelDownloadEngine::new(plan);
    engine.run_in_memory(&backend, &mut sink, job.total_bytes).expect("download");
    let report = engine.report(0);
    assert_eq!(report.peak_in_flight_parts, 1);
    assert_eq!(report.total_parts, 3);
    assert_eq!(report.workers_used, 4);
    assert_eq!(sink.bytes(), data);
}

#[test]
fn planned_download_requests_always_follow_the_rules() {
    for policy in [
        AccelerationPolicy::Conservative,
        AccelerationPolicy::Balanced,
        AccelerationPolicy::Aggressive,
    ] {
        for size in [1u64, 1023, 512 * 1024 + 7, 3 * 1024 * 1024 + 333] {
            let planner = TransferPlanner::new(
                TransferFeatureConfig { policy, ..Default::default() },
                AppConfigHints::default(),
            );
            let job = TransferJob::new("f", size, TransferDirection::Download, AccountTier::Free);
            let plan = planner.plan(&job).expect("plan");
            let mut engine = ParallelDownloadEngine::new(plan);
            engine.begin(size).expect("begin");
            let mut covered = 0u64;
            while let Some(claimed) = engine.claim_request() {
                let request = claimed.expect("request keeps the rules");
                assert_eq!(validate_download_request(request.offset, request.len, true), Ok(()));
                assert_eq!(request.offset, covered);
                covered += request.write_len as u64;
                engine.finish_part();
            }
            assert_eq!(covered, size);
        }
    }
}

#[test]
fn engines_without_workers_move_nothing() {
    let mut plan = plan_of(TransferDirection::Upload, 1024, 2);
    plan.worker_count = 0;
    let source = MemoryUploadSource::new(vec![1u8; 2048]);
    let mut backend = RecordingUploadBackend::default();
    let mut engine = ParallelUploadEngine::new(plan);
    engine.run_in_memory(&source, &mut backend, 2048).expect("upload");
    assert_eq!(engine.report(0).peak_in_flight_parts, 0);
    assert_eq!(backend.assembled(), Vec::<u8>::new());
    assert!(!engine.can_claim());

    let mut plan = plan_of(TransferDirection::Download, 1024, 2);
    plan.worker_count = 0;
    let data = MemoryDownloadBackend::new(vec![1u8; 2048]);
    let mut sink = MemoryDownloadSink::new(2048);
    let mut engine = ParallelDownloadEngine::new(plan);
    engine.run_in_memory(&data, &mut sink, 2048).expect("download");
    assert_eq!(engine.report(0).peak_in_flight_parts, 0);
    assert_eq!(sink.bytes(), vec![0u8; 2048]);
}

#[test]
fn claims_wait_for_a_free_worker() {
    let mut engine = ParallelUploadEngine::new(plan_of(TransferDirection::Upload, 1000, 5));
    engine.begin(5000).expect("begin");
    assert_eq!(engine.worker_count(), 3);
    for _ in 0..3 {
        assert!(engine.can_claim());
        engine.claim_part().expect("slot");
    }
    assert!(!engine.can_claim());
    engine.finish_part();
    assert!(engine.can_claim());
    assert_eq!(engine.report(0).peak_in_flight_parts, 3);
}

#[test]
fn several_workers_interleaving_steps_move_every_part_once() {
    let size: u64 = 5 * 512 * 1024 + 77;
    let data: Vec<u8> = (0..size as usize).map(|i| (i % 233) as u8).collect();

    let mut plan = plan_of(TransferDirection::Upload, 512 * 1024, 6);
    plan.worker_count = 3;
    let source = MemoryUploadSource::new(data.clone());
    let mut backend = RecordingUploadBackend::default();
    let mut engine = ParallelUploadEngine::new(plan);
    engine.begin(size).expect("begin");
    // Three workers each claim, then finish in reverse claim order.
    let mut held: Vec<PartSlot> = Vec::new();
    let mut seen = Vec::new();
    loop {
        while held.len() < 3 && engine.can_claim() {
            match engine.claim_part() {
                Some(slot) => held.push(slot),
                None => break,
            }
        }
        let Some(slot) = held.pop() else { break };
        seen.push(slot.index);
        let bytes = source.read_at(slot.offset, slot.len).expect("read");
        let part = engine.accept_read(&slot, bytes).expect("part");
        backend.upload_part(part).expect("upload");
        engine.finish_part();
    }
    seen.sort();
    assert_eq!(seen, vec![0, 1, 2, 3, 4, 5]);
    let report = engine.report(0);
    assert_eq!(report.peak_in_flight_parts, 3);
    assert_eq!(backend.assembled(), data);

    let mut plan = plan_of(TransferDirection::Download, 512 * 1024, 6);
    plan.worker_count = 4;
    let remote = MemoryDownloadBackend::new(data.clone());
    let mut sink = MemoryDownloadSink::new(data.len());
    let mut engine = ParallelDownloadEngine::new(plan);
    engine.begin(size).expect("begin");
    let mut held: Vec<DownloadRequest> = Vec::new();
    let mut seen = Vec::new();
    loop {
        while held.len() < 4 && engine.can_claim() {
            match engine.claim_request() {
                Some(request) => held.push(request.expect("request")),
                None => break,
            }
        }
        if held.is_empty() {
            break;
        }
        let request = held.remove(0);
        seen.push(request.part_index);
        let bytes = remote.download_part(request).expect("download");
        engine.accept_download(&request, &bytes).expect("length");
        sink.write_at(request.offset, &bytes).expect("write");
        engine.finish_part();
    }
    assert_eq!(seen, vec![0, 1, 2, 3, 4, 5]);
    assert_eq!(engine.report(0).peak_in_flight_parts, 4);
    assert_eq!(sink.bytes(), data);
}
