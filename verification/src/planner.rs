//! Turns a transfer job into a plan: part size, part count, worker fan-out and
//! the number of files that may move at once.

use vstd::prelude::*;

use crate::telegram::{
    upload_verdict, validate_upload, AppConfigHints, TelegramRuleError, ceil_div, MIB,
    RECOMMENDED_DOWNLOAD_CHUNK_SIZE, RECOMMENDED_UPLOAD_CHUNK_SIZE, SMALL_QUEUE_CUTOFF,
    SMALL_UPLOAD_CUTOFF,
};
use crate::laws::lemma_planned_download_requests_legal;
use crate::runtime::request_is_legal;
use crate::telegram::MAX_DOWNLOAD_CHUNK_SIZE;
use crate::transfer::{
    AccelerationPolicy, PlanView, TransferDirection, TransferFeatureConfig, TransferJob,
    TransferPlan,
};

verus! {

/// `workers` held inside `[min, max]`.
pub open spec fn clamp_count(workers: usize, min: usize, max: usize) -> usize {
    if workers < min {
        min
    } else if workers > max {
        max
    } else {
        workers
    }
}

/// Workers that a policy asks for on a big upload of `total_bytes`.
pub open spec fn upload_fan_out(policy: AccelerationPolicy, total_bytes: u64) -> usize {
    match policy {
        AccelerationPolicy::Conservative => 2,
        AccelerationPolicy::Balanced => if total_bytes >= 512 * MIB {
            4
        } else {
            3
        },
        AccelerationPolicy::Aggressive => if total_bytes >= 1024 * MIB {
            8
        } else if total_bytes >= 256 * MIB {
            6
        } else {
            4
        },
    }
}

/// Workers that a policy asks for on a download of `total_bytes`.
pub open spec fn download_fan_out(policy: AccelerationPolicy, total_bytes: u64) -> usize {
    match policy {
        AccelerationPolicy::Conservative => 2,
        AccelerationPolicy::Balanced => if total_bytes >= 256 * MIB {
            4
        } else {
            3
        },
        AccelerationPolicy::Aggressive => if total_bytes >= 1024 * MIB {
            8
        } else if total_bytes >= 256 * MIB {
            6
        } else {
            4
        },
    }
}

/// Part size of downloads under a policy.
pub open spec fn download_part_size(policy: AccelerationPolicy) -> usize {
    match policy {
        AccelerationPolicy::Conservative => (512 * 1024) as usize,
        _ => RECOMMENDED_DOWNLOAD_CHUNK_SIZE,
    }
}

/// The queue hint for `total_bytes`, else `fallback`.
pub open spec fn file_budget(hints: AppConfigHints, total_bytes: u64, fallback: usize) -> usize {
    match hints.queue_limit(total_bytes) {
        Some(limit) => limit,
        None => fallback,
    }
}

/// The notes attached to an upload plan.
pub open spec fn upload_notes(hints: AppConfigHints, big_file_api: bool) -> Seq<Seq<char>> {
    let base = seq![
        "Upload uses official 512 KiB Telegram part sizing."@,
        "Big-file acceleration is modelled after grammers multi-worker saveBigFilePart."@,
        "gotd/td style worker limits are exposed as policy-driven heuristics."@,
    ];
    let hinted = if hints.upload_max_fileparts_default is None
        && hints.upload_max_fileparts_premium is None {
        base.push(
            "No live appConfig hints were provided, so upload part limits currently fall back to a conservative legacy default."@,
        )
    } else {
        base
    };
    if !big_file_api {
        hinted.push(
            "Small uploads stay single-threaded so final MD5 and server finalize flow remain simple."@,
        )
    } else {
        hinted
    }
}

/// The notes attached to a download plan.
pub open spec fn download_notes() -> Seq<Seq<char>> {
    seq![
        "Download uses precise range requests capped to 1 MiB windows."@,
        "Worker fan-out is inspired by grammers concurrent download_media_concurrent."@,
        "Writer-at style sinks follow the gotd/td downloader split between fetch and write loops."@,
    ]
}

/// The plan for an upload job, or the rule that the upload breaks.
pub open spec fn upload_plan(
    feature: TransferFeatureConfig,
    hints: AppConfigHints,
    job: TransferJob,
) -> Result<PlanView, TelegramRuleError> {
    match upload_verdict(job.total_bytes, RECOMMENDED_UPLOAD_CHUNK_SIZE, hints.part_limit(job.tier)) {
        Err(e) => Err(e),
        Ok(total_parts) => {
            let big = job.total_bytes > SMALL_UPLOAD_CUTOFF;
            Ok(
                PlanView {
                    job_id: job.id,
                    direction: job.direction,
                    part_size: RECOMMENDED_UPLOAD_CHUNK_SIZE,
                    total_parts,
                    worker_count: if big {
                        clamp_count(
                            upload_fan_out(feature.policy, job.total_bytes),
                            feature.min_workers,
                            feature.max_workers,
                        )
                    } else {
                        1
                    },
                    parallel_file_budget: file_budget(
                        hints,
                        job.total_bytes,
                        if big {
                            1
                        } else {
                            2
                        },
                    ),
                    big_file_api: big,
                    needs_md5_for_finalize: !big,
                    verify_hashes: false,
                    allow_cdn: false,
                    notes: upload_notes(hints, big),
                },
            )
        },
    }
}

/// The plan for a download job.
pub open spec fn download_plan(
    feature: TransferFeatureConfig,
    hints: AppConfigHints,
    job: TransferJob,
) -> PlanView {
    let part_size = download_part_size(feature.policy);
    PlanView {
        job_id: job.id,
        direction: job.direction,
        part_size,
        total_parts: ceil_div(job.total_bytes as int, part_size as int) as usize,
        worker_count: clamp_count(
            download_fan_out(feature.policy, job.total_bytes),
            feature.min_workers,
            feature.max_workers,
        ),
        parallel_file_budget: file_budget(
            hints,
            job.total_bytes,
            if job.total_bytes > SMALL_QUEUE_CUTOFF {
                1
            } else {
                2
            },
        ),
        big_file_api: false,
        needs_md5_for_finalize: false,
        verify_hashes: feature.verify_download_hashes,
        allow_cdn: feature.allow_cdn_redirects,
        notes: download_notes(),
    }
}

/// The plan for any job, or the rule that it breaks.
pub open spec fn planned(feature: TransferFeatureConfig, hints: AppConfigHints, job: TransferJob) -> Result<
    PlanView,
    TelegramRuleError,
> {
    match job.direction {
        TransferDirection::Upload => upload_plan(feature, hints, job),
        TransferDirection::Download => Ok(download_plan(feature, hints, job)),
    }
}

/// Whether planning `job` clamps a worker count, which needs `min <= max`.
pub open spec fn plan_clamps_workers(hints: AppConfigHints, job: TransferJob) -> bool {
    match job.direction {
        TransferDirection::Upload => upload_verdict(
            job.total_bytes,
            RECOMMENDED_UPLOAD_CHUNK_SIZE,
            hints.part_limit(job.tier),
        ) is Ok && job.total_bytes > SMALL_UPLOAD_CUTOFF,
        TransferDirection::Download => true,
    }
}

/// Whether an exec plan holds what a planned view says.
pub open spec fn plan_matches(
    outcome: Result<TransferPlan, TelegramRuleError>,
    expected: Result<PlanView, TelegramRuleError>,
) -> bool {
    match (outcome, expected) {
        (Ok(plan), Ok(view)) => plan@ == view,
        (Err(e), Err(f)) => e == f,
        _ => false,
    }
}

pub struct TransferPlanner {
    feature: TransferFeatureConfig,
    hints: AppConfigHints,
}

impl Default for TransferPlanner {
    fn default() -> (planner: Self)
        ensures
            planner.feature() == TransferFeatureConfig::standard(),
            planner.hints() == (AppConfigHints {
                upload_max_fileparts_default: None,
                upload_max_fileparts_premium: None,
                small_queue_max_active_operations_count: None,
                large_queue_max_active_operations_count: None,
            }),
    {
        Self::new(TransferFeatureConfig::default(), AppConfigHints::default())
    }
}

impl TransferPlanner {
    pub closed spec fn feature(self) -> TransferFeatureConfig {
        self.feature
    }

    pub closed spec fn hints(self) -> AppConfigHints {
        self.hints
    }

    pub fn new(feature: TransferFeatureConfig, hints: AppConfigHints) -> (planner: Self)
        ensures
            planner.feature() == feature,
            planner.hints() == hints,
    {
        TransferPlanner { feature, hints }
    }

    /// Plans `job`: uploads follow the part rules and may be refused, downloads
    /// always get a plan.
    pub fn plan(&self, job: &TransferJob) -> (outcome: Result<TransferPlan, TelegramRuleError>)
        requires
            plan_clamps_workers(self.hints(), *job) ==> self.feature().min_workers
                <= self.feature().max_workers,
        ensures
            plan_matches(outcome, planned(self.feature(), self.hints(), *job)),
            outcome matches Ok(plan) ==> plan.job_id == job.id && plan.direction == job.direction,
            outcome matches Ok(plan) ==> job.direction == TransferDirection::Download ==> {
                &&& plan.verify_hashes == self.feature().verify_download_hashes
                &&& plan.allow_cdn == self.feature().allow_cdn_redirects
                &&& !plan.big_file_api
                &&& !plan.needs_md5_for_finalize
            },
            outcome matches Ok(plan) ==> job.direction == TransferDirection::Upload ==> {
                &&& !plan.verify_hashes
                &&& !plan.allow_cdn
            },
            outcome matches Ok(plan) ==> (job.direction == TransferDirection::Download && ceil_div(
                job.total_bytes as int,
                plan.part_size as int,
            ) <= usize::MAX) ==> {
                &&& MAX_DOWNLOAD_CHUNK_SIZE % plan.part_size == 0
                &&& plan.part_size % 1024 == 0
                &&& forall|i: int|
                    0 <= i < plan.total_parts ==> #[trigger] request_is_legal(plan, job.total_bytes, i)
            },
    {
        match job.direction {
            TransferDirection::Upload => self.plan_upload(job),
            TransferDirection::Download => {
                let plan = self.plan_download(job);
                Ok(plan)
            },
        }
    }

    fn plan_upload(&self, job: &TransferJob) -> (outcome: Result<TransferPlan, TelegramRuleError>)
        requires
            plan_clamps_workers(self.hints, *job) ==> self.feature.min_workers
                <= self.feature.max_workers,
            job.direction == TransferDirection::Upload,
        ensures
            plan_matches(outcome, upload_plan(self.feature, self.hints, *job)),
    {
        let part_size = RECOMMENDED_UPLOAD_CHUNK_SIZE;
        let total_parts = validate_upload(
            job.total_bytes,
            part_size,
            self.hints.upload_part_limit(job.tier),
        )?;
        let big_file_api = job.total_bytes > SMALL_UPLOAD_CUTOFF;
        let worker_count = if !big_file_api {
            1
        } else {
            let requested = match self.feature.policy {
                AccelerationPolicy::Conservative => 2,
                AccelerationPolicy::Balanced => {
                    if job.total_bytes >= 512 * MIB {
                        4
                    } else {
                        3
                    }
                },
                AccelerationPolicy::Aggressive => {
                    if job.total_bytes >= 1024 * MIB {
                        8
                    } else if job.total_bytes >= 256 * MIB {
                        6
                    } else {
                        4
                    }
                },
            };
            self.clamp_workers(requested)
        };
        let parallel_file_budget = match self.hints.queue_limit_for(job.total_bytes) {
            Some(limit) => limit,
            None => if big_file_api {
                1
            } else {
                2
            },
        };
        let mut notes: Vec<String> = Vec::new();
        notes.push("Upload uses official 512 KiB Telegram part sizing.".to_owned());
        notes.push(
            "Big-file acceleration is modelled after grammers multi-worker saveBigFilePart.".to_owned(),
        );
        notes.push("gotd/td style worker limits are exposed as policy-driven heuristics.".to_owned());
        if self.hints.upload_max_fileparts_default.is_none()
            && self.hints.upload_max_fileparts_premium.is_none() {
            notes.push(
                "No live appConfig hints were provided, so upload part limits currently fall back to a conservative legacy default.".to_owned(),
            );
        }
        if !big_file_api {
            notes.push(
                "Small uploads stay single-threaded so final MD5 and server finalize flow remain simple.".to_owned(),
            );
        }
        let plan = TransferPlan {
            job_id: job.id,
            direction: job.direction,
            part_size,
            total_parts,
            worker_count,
            parallel_file_budget,
            big_file_api,
            needs_md5_for_finalize: !big_file_api,
            verify_hashes: false,
            allow_cdn: false,
            notes,
        };
        assert(plan@.notes =~= upload_notes(self.hints, big_file_api));
        Ok(plan)
    }

    fn plan_download(&self, job: &TransferJob) -> (plan: TransferPlan)
        requires
            self.feature.min_workers <= self.feature.max_workers,
            job.direction == TransferDirection::Download,
        ensures
            plan@ == download_plan(self.feature, self.hints, *job),
            plan.verify_hashes == self.feature.verify_download_hashes,
            plan.allow_cdn == self.feature.allow_cdn_redirects,
            ceil_div(job.total_bytes as int, plan.part_size as int) <= usize::MAX ==> {
                &&& MAX_DOWNLOAD_CHUNK_SIZE % plan.part_size == 0
                &&& plan.part_size % 1024 == 0
                &&& forall|i: int|
                    0 <= i < plan.total_parts ==> #[trigger] request_is_legal(plan, job.total_bytes, i)
            },
    {
        let part_size: usize = match self.feature.policy {
            AccelerationPolicy::Conservative => 512 * 1024,
            AccelerationPolicy::Balanced | AccelerationPolicy::Aggressive => {
                RECOMMENDED_DOWNLOAD_CHUNK_SIZE
            },
        };
        let divisor = part_size as u64;
        assert(job.total_bytes / divisor < u64::MAX) by (nonlinear_arith)
            requires
                divisor >= 1024,
        ;
        let whole = job.total_bytes / divisor;
        let total_parts_wide = if job.total_bytes % divisor == 0 {
            whole
        } else {
            whole + 1
        };
        let total_parts = total_parts_wide as usize;
        let requested = match self.feature.policy {
            AccelerationPolicy::Conservative => 2,
            AccelerationPolicy::Balanced => {
                if job.total_bytes >= 256 * MIB {
                    4
                } else {
                    3
                }
            },
            AccelerationPolicy::Aggressive => {
                if job.total_bytes >= 1024 * MIB {
                    8
                } else if job.total_bytes >= 256 * MIB {
                    6
                } else {
                    4
                }
            },
        };
        let worker_count = self.clamp_workers(requested);
        let parallel_file_budget = match self.hints.queue_limit_for(job.total_bytes) {
            Some(limit) => limit,
            None => if job.total_bytes > SMALL_QUEUE_CUTOFF {
                1
            } else {
                2
            },
        };
        let mut notes: Vec<String> = Vec::new();
        notes.push("Download uses precise range requests capped to 1 MiB windows.".to_owned());
        notes.push(
            "Worker fan-out is inspired by grammers concurrent download_media_concurrent.".to_owned(),
        );
        notes.push(
            "Writer-at style sinks follow the gotd/td downloader split between fetch and write loops.".to_owned(),
        );
        let plan = TransferPlan {
            job_id: job.id,
            direction: job.direction,
            part_size,
            total_parts,
            worker_count,
            parallel_file_budget,
            big_file_api: false,
            needs_md5_for_finalize: false,
            verify_hashes: self.feature.verify_download_hashes,
            allow_cdn: self.feature.allow_cdn_redirects,
            notes,
        };
        assert(plan@.notes =~= download_notes());
        proof {
            if ceil_div(job.total_bytes as int, plan.part_size as int) <= usize::MAX {
                lemma_planned_download_requests_legal(self.feature, self.hints, *job, plan);
            }
        }
        plan
    }

    fn clamp_workers(&self, workers: usize) -> (clamped: usize)
        requires
            self.feature.min_workers <= self.feature.max_workers,
        ensures
            clamped == clamp_count(workers, self.feature.min_workers, self.feature.max_workers),
    {
        if workers < self.feature.min_workers {
            self.feature.min_workers
        } else if workers > self.feature.max_workers {
            self.feature.max_workers
        } else {
            workers
        }
    }
}

} // verus!
