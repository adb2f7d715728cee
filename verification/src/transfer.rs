//! Transfer jobs and the plans that the planner makes for them.

use vstd::prelude::*;

use crate::telegram::AccountTier;

verus! {

/// `uuid::Uuid` is carried through the library as an opaque identifier.
#[verifier::external_type_specification]
#[verifier::external_body]
pub struct ExUuid(uuid::Uuid);

/// `uuid::Uuid` derives `Clone` next to `Copy`, so a clone is the same value.
pub assume_specification[ <uuid::Uuid as Clone>::clone ](id: &uuid::Uuid) -> (copy: uuid::Uuid)
    ensures
        copy == *id,
;

/// Calls `uuid::Uuid::new_v4`, which returns a freshly drawn random
/// identifier; nothing is claimed of its value.
#[verifier::external_body]
fn random_job_id() -> uuid::Uuid {
    uuid::Uuid::new_v4()
}

#[derive(Debug, Clone, Copy, PartialEq, Eq, Structural)]
pub enum TransferDirection {
    Upload,
    Download,
}

#[derive(Debug, Clone, Copy, PartialEq, Eq, Structural)]
pub enum AccelerationPolicy {
    Conservative,
    Balanced,
    Aggressive,
}

/// How the transfer accelerator is configured.
#[derive(Debug, Clone, Copy, PartialEq, Eq, Structural)]
pub struct TransferFeatureConfig {
    pub enabled: bool,
    pub policy: AccelerationPolicy,
    pub min_workers: usize,
    pub max_workers: usize,
    pub verify_download_hashes: bool,
    pub allow_cdn_redirects: bool,
    pub checkpoint_every_parts: usize,
}

impl TransferFeatureConfig {
    /// The configuration that `default` returns.
    pub open spec fn standard() -> TransferFeatureConfig {
        TransferFeatureConfig {
            enabled: true,
            policy: AccelerationPolicy::Balanced,
            min_workers: 1,
            max_workers: 8,
            verify_download_hashes: true,
            allow_cdn_redirects: true,
            checkpoint_every_parts: 8,
        }
    }
}

impl Default for TransferFeatureConfig {
    fn default() -> (config: Self)
        ensures
            config == TransferFeatureConfig::standard(),
    {
        TransferFeatureConfig {
            enabled: true,
            policy: AccelerationPolicy::Balanced,
            min_workers: 1,
            max_workers: 8,
            verify_download_hashes: true,
            allow_cdn_redirects: true,
            checkpoint_every_parts: 8,
        }
    }
}

/// One file to upload or download.
#[derive(Debug, Clone)]
pub struct TransferJob {
    pub id: uuid::Uuid,
    pub file_name: String,
    pub total_bytes: u64,
    pub direction: TransferDirection,
    pub tier: AccountTier,
    pub ui_visible: bool,
}

impl TransferJob {
    /// A visible job with a fresh random identifier.
    pub fn new(file_name: &str, total_bytes: u64, direction: TransferDirection, tier: AccountTier) -> (job: Self)
        ensures
            job.file_name@ == file_name@,
            job.total_bytes == total_bytes,
            job.direction == direction,
            job.tier == tier,
            job.ui_visible,
    {
        TransferJob {
            id: random_job_id(),
            file_name: file_name.to_owned(),
            total_bytes,
            direction,
            tier,
            ui_visible: true,
        }
    }
}

/// What a plan holds, with its notes as character sequences.
pub struct PlanView {
    pub job_id: uuid::Uuid,
    pub direction: TransferDirection,
    pub part_size: usize,
    pub total_parts: usize,
    pub worker_count: usize,
    pub parallel_file_budget: usize,
    pub big_file_api: bool,
    pub needs_md5_for_finalize: bool,
    pub verify_hashes: bool,
    pub allow_cdn: bool,
    pub notes: Seq<Seq<char>>,
}

/// How a job is cut into parts and how many workers move them.
#[derive(Debug, Clone)]
pub struct TransferPlan {
    pub job_id: uuid::Uuid,
    pub direction: TransferDirection,
    pub part_size: usize,
    pub total_parts: usize,
    pub worker_count: usize,
    pub parallel_file_budget: usize,
    pub big_file_api: bool,
    pub needs_md5_for_finalize: bool,
    pub verify_hashes: bool,
    pub allow_cdn: bool,
    pub notes: Vec<String>,
}

impl View for TransferPlan {
    type V = PlanView;

    open spec fn view(&self) -> PlanView {
        PlanView {
            job_id: self.job_id,
            direction: self.direction,
            part_size: self.part_size,
            total_parts: self.total_parts,
            worker_count: self.worker_count,
            parallel_file_budget: self.parallel_file_budget,
            big_file_api: self.big_file_api,
            needs_md5_for_finalize: self.needs_md5_for_finalize,
            verify_hashes: self.verify_hashes,
            allow_cdn: self.allow_cdn,
            notes: self.notes@.map_values(|note: String| note@),
        }
    }
}

impl TransferPlan {
    /// Bytes that are on the wire at once when every worker holds one part.
    pub fn estimated_in_flight_bytes(&self) -> (bytes: u64)
        requires
            self.worker_count * self.part_size <= u64::MAX,
        ensures
            bytes == self.worker_count * self.part_size,
    {
        self.worker_count as u64 * self.part_size as u64
    }
}

} // verus!
