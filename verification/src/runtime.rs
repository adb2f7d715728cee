//! Part scheduling for parallel transfers.
//!
//! An engine hands out parts one at a time, checks what came back for each
//! part and counts the parts in flight. The workers that move the bytes run
//! outside the library and ask the engine for their next step.

use vstd::prelude::*;

use crate::telegram::{
    ceil_div, download_verdict, reaches_window_check, validate_download_request,
    TelegramRuleError, MAX_DOWNLOAD_CHUNK_SIZE, PRECISE_DOWNLOAD_ALIGNMENT,
};
use crate::transfer::{TransferDirection, TransferPlan};

verus! {

#[derive(Debug, Clone)]
pub enum TransferRuntimeError {
    DirectionMismatch,
    EmptyPlan,
    ShortRead { part_index: usize, expected: usize, actual: usize },
    ShortDownload { part_index: usize, expected: usize, actual: usize },
    Message(String),
    Rules(TelegramRuleError),
    /// A worker task ended without a result; holds the runtime's words.
    Join(String),
}

#[derive(Debug, Clone)]
pub struct UploadPart {
    pub job_id: uuid::Uuid,
    pub part_index: usize,
    pub offset: u64,
    pub total_parts: usize,
    pub is_big_file: bool,
    pub bytes: Vec<u8>,
}

#[derive(Debug, Clone, Copy)]
pub struct DownloadRequest {
    pub job_id: uuid::Uuid,
    pub part_index: usize,
    pub offset: u64,
    pub len: usize,
    pub write_len: usize,
}

#[derive(Debug, Clone)]
pub struct TransferReport {
    pub job_id: uuid::Uuid,
    pub total_bytes: u64,
    pub total_parts: usize,
    pub workers_used: usize,
    pub peak_in_flight_parts: usize,
    pub elapsed_ms: u128,
}

/// A part that an upload worker has claimed: its index, where it starts and
/// how many bytes it holds.
#[derive(Debug, Clone, Copy, PartialEq, Eq, Structural)]
pub struct PartSlot {
    pub index: usize,
    pub offset: u64,
    pub len: usize,
}

/// Where part `index` starts.
pub open spec fn part_offset(part_size: int, index: int) -> int {
    index * part_size
}

/// How many bytes a part starting at `offset` holds: a whole part, the rest of
/// the file, or nothing past its end.
pub open spec fn len_at(part_size: int, total_bytes: int, offset: int) -> int {
    let rest = total_bytes - offset;
    if rest <= 0 {
        0
    } else if rest < part_size {
        rest
    } else {
        part_size
    }
}

/// How many bytes part `index` of a `total_bytes` file holds.
pub open spec fn part_len(part_size: int, total_bytes: int, index: int) -> int {
    len_at(part_size, total_bytes, part_offset(part_size, index))
}

/// The bytes of `data` that part `index` carries.
pub open spec fn tile(data: Seq<u8>, part_size: int, index: int) -> Seq<u8> {
    let offset = part_offset(part_size, index);
    data.subrange(offset, offset + part_len(part_size, data.len() as int, index))
}

/// The bytes of parts `0..count` of `data`, one after another.
pub open spec fn tiles_concat(data: Seq<u8>, part_size: int, count: int) -> Seq<u8>
    decreases count,
{
    if count <= 0 {
        Seq::empty()
    } else {
        tiles_concat(data, part_size, count - 1) + tile(data, part_size, count - 1)
    }
}

/// `len` rounded up to the precise download alignment.
pub open spec fn aligned_limit(len: int) -> int {
    ceil_div(len, PRECISE_DOWNLOAD_ALIGNMENT as int) * PRECISE_DOWNLOAD_ALIGNMENT as int
}

/// The request that the engine makes for part `index` of a download.
pub open spec fn download_request_for(plan: TransferPlan, total_bytes: u64, index: int) -> (u64, usize, usize) {
    let offset = part_offset(plan.part_size as int, index);
    let write_len = part_len(plan.part_size as int, total_bytes as int, index);
    (offset as u64, aligned_limit(write_len) as usize, write_len as usize)
}

/// Whether the request for part `index` of a download keeps the precise
/// download rules.
pub open spec fn request_is_legal(plan: TransferPlan, total_bytes: u64, index: int) -> bool {
    let (offset, len, _) = download_request_for(plan, total_bytes, index);
    download_verdict(offset, len, true) is Ok
}

/// Whether the offset of part `index` fits in `u64`.
pub open spec fn offset_fits(plan: TransferPlan, index: int) -> bool {
    part_offset(plan.part_size as int, index) <= u64::MAX
}

/// Whether the request for part `index` can be computed: its offset fits in
/// `u64`, its aligned length in `usize`, and, where the precise window check
/// is reached, its end in `u64`.
pub open spec fn request_fits(plan: TransferPlan, total_bytes: u64, index: int) -> bool {
    let offset = part_offset(plan.part_size as int, index);
    let limit = aligned_limit(part_len(plan.part_size as int, total_bytes as int, index));
    &&& offset <= u64::MAX
    &&& limit <= usize::MAX
    &&& reaches_window_check(offset as u64, limit as usize, true) ==> offset + limit <= u64::MAX
}

/// The report of a finished run.
pub open spec fn report_of(plan: TransferPlan, total_bytes: u64, peak: usize, elapsed_ms: u128, report: TransferReport) -> bool {
    &&& report.job_id == plan.job_id
    &&& report.total_bytes == total_bytes
    &&& report.total_parts == plan.total_parts
    &&& report.workers_used == plan.worker_count
    &&& report.peak_in_flight_parts == peak
    &&& report.elapsed_ms == elapsed_ms
}

/// Why a plan cannot run in an engine for `direction`, if it cannot.
pub open spec fn plan_refusal(plan: TransferPlan, direction: TransferDirection) -> Option<TransferRuntimeError> {
    if plan.direction != direction {
        Some(TransferRuntimeError::DirectionMismatch)
    } else if plan.total_parts == 0 {
        Some(TransferRuntimeError::EmptyPlan)
    } else {
        None
    }
}

/// Whether `outcome` is the refusal (or the start) that `plan_refusal` names.
pub open spec fn start_matches(outcome: Result<(), TransferRuntimeError>, refusal: Option<TransferRuntimeError>) -> bool {
    match refusal {
        None => outcome is Ok,
        Some(TransferRuntimeError::DirectionMismatch) => outcome matches Err(TransferRuntimeError::DirectionMismatch),
        Some(_) => outcome matches Err(TransferRuntimeError::EmptyPlan),
    }
}

/// A length rounded up to the alignment is a multiple of it and at most one
/// alignment short of the length plus the alignment.
pub proof fn lemma_aligned_limit_bounds(len: int)
    requires
        len >= 0,
    ensures
        len <= aligned_limit(len) < len + PRECISE_DOWNLOAD_ALIGNMENT,
        aligned_limit(len) % PRECISE_DOWNLOAD_ALIGNMENT as int == 0,
        len > 0 ==> aligned_limit(len) > 0,
{
    let a = PRECISE_DOWNLOAD_ALIGNMENT as int;
    let q = len / a;
    let r = len % a;
    assert(len == a * q + r && 0 <= r < a) by {
        vstd::arithmetic::div_mod::lemma_fundamental_div_mod(len, a);
    }
    if r == 0 {
        assert(aligned_limit(len) == q * a);
        assert((q * a) % a == 0) by {
            vstd::arithmetic::div_mod::lemma_mod_multiples_basic(q, a);
        }
    } else {
        assert(aligned_limit(len) == (q + 1) * a);
        assert(((q + 1) * a) % a == 0) by {
            vstd::arithmetic::div_mod::lemma_mod_multiples_basic(q + 1, a);
        }
        assert((q + 1) * a == q * a + a) by (nonlinear_arith);
    }
}

/// Rounds a part length up to the precise download alignment.
pub fn align_precise_limit(write_len: usize) -> (limit: usize)
    requires
        aligned_limit(write_len as int) <= usize::MAX,
    ensures
        limit == aligned_limit(write_len as int),
{
    let whole = write_len / PRECISE_DOWNLOAD_ALIGNMENT;
    let blocks = if write_len % PRECISE_DOWNLOAD_ALIGNMENT == 0 {
        whole
    } else {
        whole + 1
    };
    blocks * PRECISE_DOWNLOAD_ALIGNMENT
}

/// The length of the part that starts at `offset`.
fn length_at(part_size: usize, total_bytes: u64, offset: u64) -> (len: usize)
    ensures
        len == len_at(part_size as int, total_bytes as int, offset as int),
{
    let rest = if total_bytes > offset {
        total_bytes - offset
    } else {
        0
    };
    if (part_size as u64) < rest {
        part_size
    } else {
        rest as usize
    }
}

/// The in-flight count after one part leaves the wire.
pub open spec fn one_fewer(count: usize) -> usize {
    if count > 0 {
        (count - 1) as usize
    } else {
        0
    }
}

/// The peak after a part joins `in_flight` others.
pub open spec fn raised_peak(peak: usize, in_flight: usize) -> usize {
    if in_flight + 1 > peak {
        (in_flight + 1) as usize
    } else {
        peak
    }
}

/// How the peak moves when a step leaves `in_flight` parts on the wire: it
/// never falls, it is at least what is in flight now, and it only changes to
/// what is in flight now.
pub open spec fn peak_tracks(before_peak: usize, after_peak: usize, after_in_flight: usize) -> bool {
    &&& after_peak >= before_peak
    &&& after_peak >= after_in_flight
    &&& (after_peak == before_peak || after_peak == after_in_flight)
}

/// The slot that an upload engine hands out for part `index`.
pub open spec fn slot_for(plan: TransferPlan, total_bytes: u64, index: int) -> PartSlot {
    PartSlot {
        index: index as usize,
        offset: part_offset(plan.part_size as int, index) as u64,
        len: part_len(plan.part_size as int, total_bytes as int, index) as usize,
    }
}

/// What a claim does to an upload engine's schedule: the next part is handed
/// out and the schedule moves on, or nothing is left to hand out.
pub open spec fn upload_claim_step(
    before: ParallelUploadEngine,
    after: ParallelUploadEngine,
    slot: Option<PartSlot>,
) -> bool {
    &&& after.plan() == before.plan()
    &&& after.total_bytes() == before.total_bytes()
    &&& before.next_part() < before.plan().total_parts ==> slot == Some(
        slot_for(before.plan(), before.total_bytes(), before.next_part() as int),
    ) && after.next_part() == before.next_part() + 1
    &&& before.next_part() >= before.plan().total_parts ==> slot is None && after.next_part()
        == before.next_part()
}

/// A step that leaves an upload engine's schedule as it was.
pub open spec fn upload_schedule_kept(before: ParallelUploadEngine, after: ParallelUploadEngine) -> bool {
    &&& after.plan() == before.plan()
    &&& after.total_bytes() == before.total_bytes()
    &&& after.next_part() == before.next_part()
}

/// What a claim does to a download engine's schedule: the next part's
/// request (or its rule error) is handed out and the schedule moves on, or
/// nothing is left to hand out.
pub open spec fn download_claim_step(
    before: ParallelDownloadEngine,
    after: ParallelDownloadEngine,
    claimed: Option<Result<DownloadRequest, TransferRuntimeError>>,
) -> bool {
    &&& after.plan() == before.plan()
    &&& after.total_bytes() == before.total_bytes()
    &&& before.next_part() < before.plan().total_parts ==> download_claim_matches(
        before.plan(),
        before.total_bytes(),
        before.next_part() as int,
        claimed,
    ) && after.next_part() == before.next_part() + 1
    &&& before.next_part() >= before.plan().total_parts ==> claimed is None && after.next_part()
        == before.next_part()
}

/// A step that leaves a download engine's schedule as it was.
pub open spec fn download_schedule_kept(
    before: ParallelDownloadEngine,
    after: ParallelDownloadEngine,
) -> bool {
    &&& after.plan() == before.plan()
    &&& after.total_bytes() == before.total_bytes()
    &&& after.next_part() == before.next_part()
}

/// Hands out the parts of an upload plan and checks what the source read for
/// each.
pub struct ParallelUploadEngine {
    plan: TransferPlan,
    total_bytes: u64,
    next_part: usize,
    in_flight: usize,
    peak: usize,
}

impl ParallelUploadEngine {
    #[verifier::type_invariant]
    spec fn counters_ordered(self) -> bool {
        &&& self.in_flight <= self.peak
        &&& self.peak <= self.next_part
        &&& self.peak <= self.plan.worker_count
        &&& self.next_part <= self.plan.total_parts
    }

    pub closed spec fn plan(self) -> TransferPlan {
        self.plan
    }

    pub closed spec fn total_bytes(self) -> u64 {
        self.total_bytes
    }

    /// The index of the part that the next claim gets.
    pub closed spec fn next_part(self) -> usize {
        self.next_part
    }

    /// Parts claimed and not yet finished.
    pub closed spec fn in_flight(self) -> usize {
        self.in_flight
    }

    /// The most parts that were in flight at once.
    pub closed spec fn peak(self) -> usize {
        self.peak
    }

    /// Parts in flight never outnumber the peak, the peak never outnumbers the
    /// parts claimed nor the plan's workers, and no more parts are claimed
    /// than the plan has.
    pub open spec fn counts_ordered(self) -> bool {
        &&& self.in_flight() <= self.peak()
        &&& self.peak() <= self.next_part()
        &&& self.peak() <= self.plan().worker_count
        &&& self.next_part() <= self.plan().total_parts
    }

    pub fn new(plan: TransferPlan) -> (engine: Self)
        ensures
            engine.plan() == plan,
            engine.total_bytes() == 0,
            engine.next_part() == 0,
            engine.in_flight() == 0,
            engine.peak() == 0,
            engine.counts_ordered(),
    {
        ParallelUploadEngine { plan, total_bytes: 0, next_part: 0, in_flight: 0, peak: 0 }
    }

    /// Checks the plan and starts a run over `total_bytes`; a refused plan
    /// leaves the engine as it was.
    pub fn begin(&mut self, total_bytes: u64) -> (outcome: Result<(), TransferRuntimeError>)
        ensures
            final(self).counts_ordered(),
            start_matches(outcome, plan_refusal(old(self).plan(), TransferDirection::Upload)),
            final(self).plan() == old(self).plan(),
            outcome is Ok ==> final(self).total_bytes() == total_bytes && final(self).next_part()
                == 0 && final(self).in_flight() == 0 && final(self).peak() == 0,
            outcome is Err ==> final(self).total_bytes() == old(self).total_bytes()
                && final(self).next_part() == old(self).next_part() && final(self).in_flight()
                == old(self).in_flight() && final(self).peak() == old(self).peak(),
    {
        proof {
            use_type_invariant(&*self);
        }
        if self.plan.direction != TransferDirection::Upload {
            return Err(TransferRuntimeError::DirectionMismatch);
        }
        if self.plan.total_parts == 0 {
            return Err(TransferRuntimeError::EmptyPlan);
        }
        self.total_bytes = total_bytes;
        self.in_flight = 0;
        self.peak = 0;
        self.next_part = 0;
        Ok(())
    }

    /// Whether a worker may claim now: it holds no part, so fewer parts than
    /// workers are in flight, and the next part's offset fits in `u64`.
    pub open spec fn claim_allowed(self) -> bool {
        &&& self.in_flight() < self.plan().worker_count
        &&& self.next_part() < self.plan().total_parts ==> offset_fits(
            self.plan(),
            self.next_part() as int,
        )
    }

    /// Tells whether `claim_part` may be called now.
    pub fn can_claim(&self) -> (allowed: bool)
        ensures
            allowed == self.claim_allowed(),
    {
        if self.in_flight >= self.plan.worker_count {
            return false;
        }
        if self.next_part >= self.plan.total_parts {
            return true;
        }
        (self.next_part as u64).checked_mul(self.plan.part_size as u64).is_some()
    }

    /// The number of workers the plan asks for.
    pub fn worker_count(&self) -> (workers: usize)
        ensures
            workers == self.plan().worker_count,
    {
        self.plan.worker_count
    }

    /// Gives the next part to a worker, or nothing once every part was given.
    pub fn claim_part(&mut self) -> (slot: Option<PartSlot>)
        requires
            old(self).claim_allowed(),
        ensures
            peak_tracks(old(self).peak(), final(self).peak(), final(self).in_flight()),
            upload_claim_step(*old(self), *final(self), slot),
            final(self).counts_ordered(),
            final(self).plan() == old(self).plan(),
            final(self).total_bytes() == old(self).total_bytes(),
            old(self).next_part() < old(self).plan().total_parts ==> {
                let index = old(self).next_part() as int;
                let part_size = old(self).plan().part_size as int;
                &&& slot == Some(
                    PartSlot {
                        index: index as usize,
                        offset: part_offset(part_size, index) as u64,
                        len: part_len(part_size, old(self).total_bytes() as int, index) as usize,
                    },
                )
                &&& final(self).next_part() == index + 1
                &&& final(self).in_flight() == old(self).in_flight() + 1
                &&& final(self).peak() == raised_peak(old(self).peak(), old(self).in_flight())
                &&& final(self).peak() >= old(self).peak()
                &&& final(self).peak() >= final(self).in_flight()
                &&& final(self).peak() == old(self).peak() || final(self).peak() == final(self).in_flight()
            },
            old(self).next_part() >= old(self).plan().total_parts ==> {
                &&& slot is None
                &&& final(self).next_part() == old(self).next_part()
                &&& final(self).in_flight() == old(self).in_flight()
                &&& final(self).peak() == old(self).peak()
            },
    {
        proof {
            use_type_invariant(&*self);
        }
        if self.next_part >= self.plan.total_parts {
            return None;
        }
        let index = self.next_part;
        let part_size = self.plan.part_size;
        let offset = index as u64 * part_size as u64;
        let len = length_at(part_size, self.total_bytes, offset);
        self.next_part = index + 1;
        if self.in_flight + 1 > self.peak {
            self.peak = self.in_flight + 1;
        }
        self.in_flight = self.in_flight + 1;
        Some(PartSlot { index, offset, len })
    }

    /// Checks the bytes that the source read for `slot`; a short read ends the
    /// part and is an error, a full read becomes the part to upload.
    pub fn accept_read(&mut self, slot: &PartSlot, bytes: Vec<u8>) -> (outcome: Result<
        UploadPart,
        TransferRuntimeError,
    >)
        ensures
            upload_schedule_kept(*old(self), *final(self)),
            peak_tracks(old(self).peak(), final(self).peak(), final(self).in_flight()),
            final(self).counts_ordered(),
            final(self).plan() == old(self).plan(),
            final(self).total_bytes() == old(self).total_bytes(),
            final(self).next_part() == old(self).next_part(),
            final(self).peak() == old(self).peak(),
            bytes.len() != slot.len ==> {
                &&& outcome == Err::<UploadPart, TransferRuntimeError>(
                    TransferRuntimeError::ShortRead {
                        part_index: slot.index,
                        expected: slot.len,
                        actual: bytes.len(),
                    },
                )
                &&& final(self).in_flight() == one_fewer(old(self).in_flight())
            },
            bytes.len() == slot.len ==> {
                &&& outcome == Ok::<UploadPart, TransferRuntimeError>(
                    UploadPart {
                        job_id: old(self).plan().job_id,
                        part_index: slot.index,
                        offset: slot.offset,
                        total_parts: old(self).plan().total_parts,
                        is_big_file: old(self).plan().big_file_api,
                        bytes,
                    },
                )
                &&& final(self).in_flight() == old(self).in_flight()
            },
    {
        proof {
            use_type_invariant(&*self);
        }
        if bytes.len() != slot.len {
            let actual = bytes.len();
            if self.in_flight > 0 {
                self.in_flight = self.in_flight - 1;
            }
            return Err(
                TransferRuntimeError::ShortRead { part_index: slot.index, expected: slot.len, actual },
            );
        }
        Ok(
            UploadPart {
                job_id: self.plan.job_id,
                part_index: slot.index,
                offset: slot.offset,
                total_parts: self.plan.total_parts,
                is_big_file: self.plan.big_file_api,
                bytes,
            },
        )
    }

    /// Marks one part as uploaded.
    pub fn finish_part(&mut self)
        ensures
            upload_schedule_kept(*old(self), *final(self)),
            peak_tracks(old(self).peak(), final(self).peak(), final(self).in_flight()),
            final(self).counts_ordered(),
            final(self).plan() == old(self).plan(),
            final(self).total_bytes() == old(self).total_bytes(),
            final(self).next_part() == old(self).next_part(),
            final(self).peak() == old(self).peak(),
            final(self).in_flight() == one_fewer(old(self).in_flight()),
    {
        proof {
            use_type_invariant(&*self);
        }
        if self.in_flight > 0 {
            self.in_flight = self.in_flight - 1;
        }
    }

    /// The report of a run that took `elapsed_ms`.
    pub fn report(&self, elapsed_ms: u128) -> (report: TransferReport)
        ensures
            report_of(self.plan(), self.total_bytes(), self.peak(), elapsed_ms, report),
    {
        TransferReport {
            job_id: self.plan.job_id,
            total_bytes: self.total_bytes,
            total_parts: self.plan.total_parts,
            workers_used: self.plan.worker_count,
            peak_in_flight_parts: self.peak,
            elapsed_ms,
        }
    }
}

/// Hands out the requests of a download plan and checks what the backend
/// returned for each.
pub struct ParallelDownloadEngine {
    plan: TransferPlan,
    total_bytes: u64,
    next_part: usize,
    in_flight: usize,
    peak: usize,
}

/// Whether `claimed` is what a download engine hands out for part `index`.
pub open spec fn download_claim_matches(
    plan: TransferPlan,
    total_bytes: u64,
    index: int,
    claimed: Option<Result<DownloadRequest, TransferRuntimeError>>,
) -> bool {
    let (offset, len, write_len) = download_request_for(plan, total_bytes, index);
    match download_verdict(offset, len, true) {
        Err(e) => claimed == Some(Err::<DownloadRequest, TransferRuntimeError>(TransferRuntimeError::Rules(e))),
        Ok(_) => claimed == Some(
            Ok::<DownloadRequest, TransferRuntimeError>(
                DownloadRequest {
                    job_id: plan.job_id,
                    part_index: index as usize,
                    offset,
                    len,
                    write_len,
                },
            ),
        ),
    }
}

impl ParallelDownloadEngine {
    #[verifier::type_invariant]
    spec fn counters_ordered(self) -> bool {
        &&& self.in_flight <= self.peak
        &&& self.peak <= self.next_part
        &&& self.peak <= self.plan.worker_count
        &&& self.next_part <= self.plan.total_parts
    }

    pub closed spec fn plan(self) -> TransferPlan {
        self.plan
    }

    pub closed spec fn total_bytes(self) -> u64 {
        self.total_bytes
    }

    /// The index of the part that the next claim gets.
    pub closed spec fn next_part(self) -> usize {
        self.next_part
    }

    /// Requests handed out and not yet finished.
    pub closed spec fn in_flight(self) -> usize {
        self.in_flight
    }

    /// The most requests that were in flight at once.
    pub closed spec fn peak(self) -> usize {
        self.peak
    }

    /// Requests in flight never outnumber the peak, the peak never outnumbers
    /// the parts claimed nor the plan's workers, and no more parts are claimed
    /// than the plan has.
    pub open spec fn counts_ordered(self) -> bool {
        &&& self.in_flight() <= self.peak()
        &&& self.peak() <= self.next_part()
        &&& self.peak() <= self.plan().worker_count
        &&& self.next_part() <= self.plan().total_parts
    }

    pub fn new(plan: TransferPlan) -> (engine: Self)
        ensures
            engine.plan() == plan,
            engine.total_bytes() == 0,
            engine.next_part() == 0,
            engine.in_flight() == 0,
            engine.peak() == 0,
            engine.counts_ordered(),
    {
        ParallelDownloadEngine { plan, total_bytes: 0, next_part: 0, in_flight: 0, peak: 0 }
    }

    /// Checks the plan and starts a run over `total_bytes`; a refused plan
    /// leaves the engine as it was.
    pub fn begin(&mut self, total_bytes: u64) -> (outcome: Result<(), TransferRuntimeError>)
        ensures
            final(self).counts_ordered(),
            start_matches(outcome, plan_refusal(old(self).plan(), TransferDirection::Download)),
            final(self).plan() == old(self).plan(),
            outcome is Ok ==> final(self).total_bytes() == total_bytes && final(self).next_part()
                == 0 && final(self).in_flight() == 0 && final(self).peak() == 0,
            outcome is Err ==> final(self).total_bytes() == old(self).total_bytes()
                && final(self).next_part() == old(self).next_part() && final(self).in_flight()
                == old(self).in_flight() && final(self).peak() == old(self).peak(),
    {
        proof {
            use_type_invariant(&*self);
        }
        if self.plan.direction != TransferDirection::Download {
            return Err(TransferRuntimeError::DirectionMismatch);
        }
        if self.plan.total_parts == 0 {
            return Err(TransferRuntimeError::EmptyPlan);
        }
        self.total_bytes = total_bytes;
        self.in_flight = 0;
        self.peak = 0;
        self.next_part = 0;
        Ok(())
    }

    /// Whether a worker may claim now: it holds no request, so fewer requests
    /// than workers are in flight, and the next request can be computed.
    pub open spec fn claim_allowed(self) -> bool {
        &&& self.in_flight() < self.plan().worker_count
        &&& self.next_part() < self.plan().total_parts ==> request_fits(
            self.plan(),
            self.total_bytes(),
            self.next_part() as int,
        )
    }

    /// Tells whether `claim_request` may be called now.
    pub fn can_claim(&self) -> (allowed: bool)
        ensures
            allowed == self.claim_allowed(),
    {
        if self.in_flight >= self.plan.worker_count {
            return false;
        }
        if self.next_part >= self.plan.total_parts {
            return true;
        }
        let offset = match (self.next_part as u64).checked_mul(self.plan.part_size as u64) {
            Some(offset) => offset,
            None => return false,
        };
        let write_len = length_at(self.plan.part_size, self.total_bytes, offset);
        let whole = write_len / PRECISE_DOWNLOAD_ALIGNMENT;
        let blocks = if write_len % PRECISE_DOWNLOAD_ALIGNMENT == 0 {
            whole
        } else {
            whole + 1
        };
        let limit = match blocks.checked_mul(PRECISE_DOWNLOAD_ALIGNMENT) {
            Some(limit) => limit,
            None => return false,
        };
        let reaches = 0 < limit && limit <= MAX_DOWNLOAD_CHUNK_SIZE && offset
            % (PRECISE_DOWNLOAD_ALIGNMENT as u64) == 0 && limit % PRECISE_DOWNLOAD_ALIGNMENT == 0;
        !reaches || offset.checked_add(limit as u64).is_some()
    }

    /// The number of workers the plan asks for.
    pub fn worker_count(&self) -> (workers: usize)
        ensures
            workers == self.plan().worker_count,
    {
        self.plan.worker_count
    }

    /// Gives the request for the next part to a worker: the part's offset, its
    /// length rounded up to the precise alignment, and how many of those bytes
    /// belong to the file. A request that breaks the download rules is an
    /// error; nothing is handed out once every part was claimed.
    pub fn claim_request(&mut self) -> (claimed: Option<Result<DownloadRequest, TransferRuntimeError>>)
        requires
            old(self).claim_allowed(),
        ensures
            peak_tracks(old(self).peak(), final(self).peak(), final(self).in_flight()),
            download_claim_step(*old(self), *final(self), claimed),
            final(self).counts_ordered(),
            final(self).plan() == old(self).plan(),
            final(self).total_bytes() == old(self).total_bytes(),
            old(self).next_part() < old(self).plan().total_parts ==> {
                &&& download_claim_matches(
                    old(self).plan(),
                    old(self).total_bytes(),
                    old(self).next_part() as int,
                    claimed,
                )
                &&& final(self).next_part() == old(self).next_part() + 1
                &&& claimed matches Some(Ok(_)) ==> final(self).in_flight() == old(self).in_flight()
                    + 1 && final(self).peak() == raised_peak(old(self).peak(), old(self).in_flight())
                &&& claimed matches Some(Ok(_)) ==> {
                    &&& final(self).peak() >= old(self).peak()
                    &&& final(self).peak() >= final(self).in_flight()
                    &&& final(self).peak() == old(self).peak() || final(self).peak() == final(self).in_flight()
                }
                &&& claimed matches Some(Err(_)) ==> final(self).in_flight() == old(self).in_flight()
                    && final(self).peak() == old(self).peak()
            },
            old(self).next_part() >= old(self).plan().total_parts ==> {
                &&& claimed is None
                &&& final(self).next_part() == old(self).next_part()
                &&& final(self).in_flight() == old(self).in_flight()
                &&& final(self).peak() == old(self).peak()
            },
    {
        proof {
            use_type_invariant(&*self);
        }
        if self.next_part >= self.plan.total_parts {
            return None;
        }
        let index = self.next_part;
        let part_size = self.plan.part_size;
        let offset = index as u64 * part_size as u64;
        let write_len = length_at(part_size, self.total_bytes, offset);
        proof {
            lemma_aligned_limit_bounds(write_len as int);
        }
        let requested_len = align_precise_limit(write_len);
        self.next_part = index + 1;
        match validate_download_request(offset, requested_len, true) {
            Err(e) => Some(Err(TransferRuntimeError::Rules(e))),
            Ok(()) => {
                if self.in_flight + 1 > self.peak {
                    self.peak = self.in_flight + 1;
                }
                self.in_flight = self.in_flight + 1;
                Some(
                    Ok(
                        DownloadRequest {
                            job_id: self.plan.job_id,
                            part_index: index,
                            offset,
                            len: requested_len,
                            write_len,
                        },
                    ),
                )
            },
        }
    }

    /// Checks the bytes that the backend returned for `request`; a short
    /// answer ends the request and is an error.
    pub fn accept_download(&mut self, request: &DownloadRequest, bytes: &[u8]) -> (outcome: Result<
        (),
        TransferRuntimeError,
    >)
        ensures
            download_schedule_kept(*old(self), *final(self)),
            peak_tracks(old(self).peak(), final(self).peak(), final(self).in_flight()),
            final(self).counts_ordered(),
            final(self).plan() == old(self).plan(),
            final(self).total_bytes() == old(self).total_bytes(),
            final(self).next_part() == old(self).next_part(),
            final(self).peak() == old(self).peak(),
            bytes@.len() != request.write_len ==> {
                &&& outcome == Err::<(), TransferRuntimeError>(
                    TransferRuntimeError::ShortDownload {
                        part_index: request.part_index,
                        expected: request.write_len,
                        actual: bytes@.len() as usize,
                    },
                )
                &&& final(self).in_flight() == one_fewer(old(self).in_flight())
            },
            bytes@.len() == request.write_len ==> outcome is Ok && final(self).in_flight()
                == old(self).in_flight(),
    {
        proof {
            use_type_invariant(&*self);
        }
        let actual = bytes.len();
        if actual != request.write_len {
            if self.in_flight > 0 {
                self.in_flight = self.in_flight - 1;
            }
            return Err(
                TransferRuntimeError::ShortDownload {
                    part_index: request.part_index,
                    expected: request.write_len,
                    actual,
                },
            );
        }
        Ok(())
    }

    /// Marks one request as written to the sink.
    pub fn finish_part(&mut self)
        ensures
            download_schedule_kept(*old(self), *final(self)),
            peak_tracks(old(self).peak(), final(self).peak(), final(self).in_flight()),
            final(self).counts_ordered(),
            final(self).plan() == old(self).plan(),
            final(self).total_bytes() == old(self).total_bytes(),
            final(self).next_part() == old(self).next_part(),
            final(self).peak() == old(self).peak(),
            final(self).in_flight() == one_fewer(old(self).in_flight()),
    {
        proof {
            use_type_invariant(&*self);
        }
        if self.in_flight > 0 {
            self.in_flight = self.in_flight - 1;
        }
    }

    /// The report of a run that took `elapsed_ms`.
    pub fn report(&self, elapsed_ms: u128) -> (report: TransferReport)
        ensures
            report_of(self.plan(), self.total_bytes(), self.peak(), elapsed_ms, report),
    {
        TransferReport {
            job_id: self.plan.job_id,
            total_bytes: self.total_bytes,
            total_parts: self.plan.total_parts,
            workers_used: self.plan.worker_count,
            peak_in_flight_parts: self.peak,
            elapsed_ms,
        }
    }
}

} // verus!
