use tg_rs::planner::TransferPlanner;
use tg_rs::simulation::{patterned_bytes, simulation_size_allowed, MAX_SIMULATION_BYTES};
use tg_rs::telegram::{
    validate_download_request, validate_upload, validate_upload_part_size, AccountTier,
    AppConfigHints, TelegramRuleError, LEGACY_DEFAULT_MAX_UPLOAD_PARTS, MIB,
};
use tg_rs::transfer::{
    AccelerationPolicy, TransferDirection, TransferFeatureConfig, TransferJob,
};

#[test]
fn part_size_rules_name_the_first_broken_rule() {
    assert_eq!(validate_upload_part_size(0), Err(TelegramRuleError::ZeroPartSize));
    assert_eq!(
        validate_upload_part_size(1000),
        Err(TelegramRuleError::BadUploadAlignment { part_size: 1000 })
    );
    assert_eq!(
        validate_upload_part_size(3 * 1024),
        Err(TelegramRuleError::BadUploadGranularity { part_size: 3 * 1024 })
    );
    assert_eq!(
        validate_upload_part_size(1024 * 1024),
        Err(TelegramRuleError::BadUploadGranularity { part_size: 1024 * 1024 })
    );
    for kib in [1usize, 2, 4, 8, 16, 32, 64, 128, 256, 512] {
        assert_eq!(validate_upload_part_size(kib * 1024), Ok(()));
    }
}

#[test]
fn upload_part_counts_round_up() {
    assert_eq!(validate_upload(0, 512 * 1024, 10), Ok(0));
    assert_eq!(validate_upload(1, 512 * 1024, 10), Ok(1));
    assert_eq!(validate_upload(512 * 1024, 512 * 1024, 10), Ok(1));
    assert_eq!(validate_upload(512 * 1024 + 1, 512 * 1024, 10), Ok(2));
    assert_eq!(
        validate_upload(11 * 512 * 1024, 512 * 1024, 10),
        Err(TelegramRuleError::TooManyUploadParts { total_parts: 11, part_limit: 10 })
    );
    assert_eq!(validate_upload(10, 0, 10), Err(TelegramRuleError::ZeroPartSize));
}

#[test]
fn download_requests_follow_the_rules() {
    assert_eq!(
        validate_download_request(0, 0, true),
        Err(TelegramRuleError::ZeroDownloadLimit)
    );
    assert_eq!(
        validate_download_request(0, 2 * 1024 * 1024, true),
        Err(TelegramRuleError::DownloadLimitTooLarge { limit: 2 * 1024 * 1024, max_limit: 1024 * 1024 })
    );
    assert_eq!(
        validate_download_request(1024, 4096, false),
        Err(TelegramRuleError::BadDownloadOffsetAlignment { offset: 1024, alignment: 4096 })
    );
    assert_eq!(
        validate_download_request(4096, 1024, false),
        Err(TelegramRuleError::BadDownloadLimitAlignment { limit: 1024, alignment: 4096 })
    );
    assert_eq!(validate_download_request(1024, 1024, true), Ok(()));
    assert_eq!(
        validate_download_request(1024 * 1024 - 1024, 2048, true),
        Err(TelegramRuleError::PreciseWindowCrossed { offset: 1024 * 1024 - 1024, limit: 2048 })
    );
    assert_eq!(validate_download_request(1024 * 1024 - 1024, 2048, false), Err(
        TelegramRuleError::BadDownloadOffsetAlignment { offset: 1024 * 1024 - 1024, alignment: 4096 }
    ));
    assert_eq!(validate_download_request(1024 * 1024, 1024 * 1024, true), Ok(()));
}

#[test]
fn part_limits_fall_back_in_order() {
    let none = AppConfigHints::default();
    assert_eq!(none.upload_part_limit(AccountTier::Free), LEGACY_DEFAULT_MAX_UPLOAD_PARTS);
    assert_eq!(none.upload_part_limit(AccountTier::Premium), 4000);
    let default_only = AppConfigHints {
        upload_max_fileparts_default: Some(3000),
        ..Default::default()
    };
    assert_eq!(default_only.upload_part_limit(AccountTier::Premium), 3000);
    let both = AppConfigHints {
        upload_max_fileparts_default: Some(3000),
        upload_max_fileparts_premium: Some(8000),
        ..Default::default()
    };
    assert_eq!(both.upload_part_limit(AccountTier::Premium), 8000);
    assert_eq!(both.upload_part_limit(AccountTier::Free), 3000);
}

#[test]
fn queue_hints_split_at_sixty_four_mib() {
    let hints = AppConfigHints {
        small_queue_max_active_operations_count: Some(5),
        large_queue_max_active_operations_count: Some(2),
        ..Default::default()
    };
    assert_eq!(hints.queue_limit_for(64 * MIB), Some(5));
    assert_eq!(hints.queue_limit_for(64 * MIB + 1), Some(2));
    assert_eq!(AppConfigHints::default().queue_limit_for(1), None);
}

fn planner(policy: AccelerationPolicy, hints: AppConfigHints) -> TransferPlanner {
    TransferPlanner::new(
        TransferFeatureConfig {
            policy,
            ..Default::default()
        },
        hints,
    )
}

fn job(total_bytes: u64, direction: TransferDirection) -> TransferJob {
    TransferJob::new("payload.bin", total_bytes, direction, AccountTier::Free)
}

#[test]
fn small_uploads_run_on_one_worker_and_need_md5() {
    let plan = planner(AccelerationPolicy::Aggressive, AppConfigHints::default())
        .plan(&job(10 * MIB, TransferDirection::Upload))
        .expect("plan");
    assert!(!plan.big_file_api);
    assert!(plan.needs_md5_for_finalize);
    assert_eq!(plan.worker_count, 1);
    assert_eq!(plan.parallel_file_budget, 2);
    assert_eq!(plan.total_parts, 20);
    assert_eq!(plan.notes.len(), 5);
    assert!(!plan.verify_hashes);
    assert!(!plan.allow_cdn);
}

#[test]
fn big_upload_workers_follow_the_policy() {
    let hints = AppConfigHints {
        upload_max_fileparts_default: Some(100_000),
        ..Default::default()
    };
    let cases = [
        (AccelerationPolicy::Conservative, 20 * MIB, 2),
        (AccelerationPolicy::Balanced, 20 * MIB, 3),
        (AccelerationPolicy::Balanced, 512 * MIB, 4),
        (AccelerationPolicy::Aggressive, 20 * MIB, 4),
        (AccelerationPolicy::Aggressive, 256 * MIB, 6),
        (AccelerationPolicy::Aggressive, 1024 * MIB, 8),
    ];
    for (policy, size, workers) in cases {
        let plan = planner(policy, hints).plan(&job(size, TransferDirection::Upload)).expect("plan");
        assert!(plan.big_file_api);
        assert_eq!(plan.worker_count, workers);
        assert_eq!(plan.parallel_file_budget, 1);
        assert_eq!(plan.notes.len(), 3);
    }
}

#[test]
fn uploads_past_the_part_limit_are_refused() {
    // 2100 MiB in 512 KiB parts is 4200 parts, over the legacy limit of 4000.
    let refused = planner(AccelerationPolicy::Balanced, AppConfigHints::default())
        .plan(&job(2100 * MIB, TransferDirection::Upload));
    assert_eq!(
        refused.err(),
        Some(TelegramRuleError::TooManyUploadParts { total_parts: 4200, part_limit: 4000 })
    );
}

#[test]
fn downloads_use_policy_part_sizes_and_budgets() {
    let conservative = planner(AccelerationPolicy::Conservative, AppConfigHints::default())
        .plan(&job(5 * MIB + 1, TransferDirection::Download))
        .expect("plan");
    assert_eq!(conservative.part_size, 512 * 1024);
    assert_eq!(conservative.total_parts, 11);
    assert_eq!(conservative.worker_count, 2);
    assert_eq!(conservative.parallel_file_budget, 2);
    assert!(conservative.verify_hashes);
    assert!(conservative.allow_cdn);
    assert_eq!(conservative.notes.len(), 3);

    let balanced = planner(AccelerationPolicy::Balanced, AppConfigHints::default())
        .plan(&job(300 * MIB, TransferDirection::Download))
        .expect("plan");
    assert_eq!(balanced.part_size, 1024 * 1024);
    assert_eq!(balanced.total_parts, 300);
    assert_eq!(balanced.worker_count, 4);
    assert_eq!(balanced.parallel_file_budget, 1);

    let hinted = planner(
        AccelerationPolicy::Balanced,
        AppConfigHints {
            large_queue_max_active_operations_count: Some(7),
            ..Default::default()
        },
    )
    .plan(&job(300 * MIB, TransferDirection::Download))
    .expect("plan");
    assert_eq!(hinted.parallel_file_budget, 7);
}

#[test]
fn worker_counts_stay_inside_configured_bounds() {
    let narrow = TransferPlanner::new(
        TransferFeatureConfig {
            policy: AccelerationPolicy::Aggressive,
            min_workers: 2,
            max_workers: 5,
            ..Default::default()
        },
        AppConfigHints::default(),
    );
    let plan = narrow.plan(&job(2000 * MIB, TransferDirection::Download)).expect("plan");
    assert_eq!(plan.worker_count, 5);
    let wide = TransferPlanner::new(
        TransferFeatureConfig {
            policy: AccelerationPolicy::Conservative,
            min_workers: 3,
            max_workers: 9,
            ..Default::default()
        },
        AppConfigHints::default(),
    );
    let plan = wide.plan(&job(MIB, TransferDirection::Download)).expect("plan");
    assert_eq!(plan.worker_count, 3);
}

#[test]
fn bigger_downloads_never_get_fewer_workers() {
    let planner = planner(AccelerationPolicy::Aggressive, AppConfigHints::default());
    let mut last = 0;
    for size in [MIB, 255 * MIB, 256 * MIB, 1023 * MIB, 1024 * MIB, 4096 * MIB] {
        let workers = planner.plan(&job(size, TransferDirection::Download)).expect("plan").worker_count;
        assert!(workers >= last);
        last = workers;
    }
    assert_eq!(last, 8);
}

#[test]
fn plans_cover_the_file_exactly() {
    for size in [1u64, 1023, 512 * 1024, 512 * 1024 + 1, 7 * MIB + 5] {
        for direction in [TransferDirection::Upload, TransferDirection::Download] {
            let plan = planner(AccelerationPolicy::Balanced, AppConfigHints::default())
                .plan(&job(size, direction))
                .expect("plan");
            let parts = plan.total_parts as u64;
            let part_size = plan.part_size as u64;
            assert!(parts * part_size >= size);
            assert!((parts - 1) * part_size < size);
        }
    }
    let empty = planner(AccelerationPolicy::Balanced, AppConfigHints::default())
        .plan(&job(0, TransferDirection::Download))
        .expect("plan");
    assert_eq!(empty.total_parts, 0);
}

#[test]
fn plans_carry_the_job_and_estimate_in_flight_bytes() {
    let j = job(300 * MIB, TransferDirection::Download);
    let plan = planner(AccelerationPolicy::Aggressive, AppConfigHints::default())
        .plan(&j)
        .expect("plan");
    assert_eq!(plan.job_id, j.id);
    assert_eq!(plan.direction, TransferDirection::Download);
    assert_eq!(plan.estimated_in_flight_bytes(), 6 * 1024 * 1024);
    assert_eq!(j.file_name, "payload.bin");
    assert!(j.ui_visible);
}

#[test]
fn feature_defaults_match_the_documented_values() {
    let config = TransferFeatureConfig::default();
    assert!(config.enabled);
    assert_eq!(config.policy, AccelerationPolicy::Balanced);
    assert_eq!((config.min_workers, config.max_workers), (1, 8));
    assert!(config.verify_download_hashes);
    assert!(config.allow_cdn_redirects);
    assert_eq!(config.checkpoint_every_parts, 8);
    assert_eq!(AccountTier::default(), AccountTier::Free);
}

#[test]
fn simulation_inputs_follow_the_pattern_and_the_cap() {
    let bytes = patterned_bytes(600);
    assert_eq!(bytes.len(), 600);
    assert_eq!(bytes[0], 0);
    assert_eq!(bytes[250], 250);
    assert_eq!(bytes[251], 0);
    assert_eq!(bytes[599], (599 % 251) as u8);
    assert!(simulation_size_allowed(MAX_SIMULATION_BYTES));
    assert!(!simulation_size_allowed(MAX_SIMULATION_BYTES + 1));
}
