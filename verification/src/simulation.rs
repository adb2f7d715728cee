//! Whole transfers against the in-memory backends, one part after another,
//! driven by the same engines that parallel workers use.

use vstd::prelude::*;

use crate::mock::{
    fits_inside, overwrite, window, MemoryDownloadBackend, MemoryDownloadSink,
    MemoryUploadSource, RecordingUploadBackend,
};
use crate::runtime::{
    download_request_for, offset_fits, part_len, part_offset, plan_refusal, request_fits,
    start_matches, ParallelDownloadEngine, ParallelUploadEngine, TransferRuntimeError, UploadPart,
};
use crate::telegram::{download_verdict, MIB};
use crate::transfer::{TransferDirection, TransferPlan};

verus! {

/// The largest transfer that the command line simulates.
pub const MAX_SIMULATION_BYTES: u64 = 64 * MIB;

/// Whether a simulation of `size` bytes stays within the cap.
pub fn simulation_size_allowed(size: u64) -> (allowed: bool)
    ensures
        allowed == (size <= MAX_SIMULATION_BYTES),
{
    size <= MAX_SIMULATION_BYTES
}

/// `size` bytes counting up from zero and wrapping below 251.
pub fn patterned_bytes(size: u64) -> (bytes: Vec<u8>)
    ensures
        bytes@.len() == size as usize,
        forall|i: int| 0 <= i < bytes@.len() ==> #[trigger] bytes@[i] == i % 251,
{
    let n = size as usize;
    let mut bytes: Vec<u8> = Vec::new();
    let mut i: usize = 0;
    while i < n
        invariant
            i <= n,
            bytes@.len() == i,
            forall|k: int| 0 <= k < i ==> #[trigger] bytes@[k] == k % 251,
        decreases n - i,
    {
        bytes.push((i % 251) as u8);
        i = i + 1;
    }
    bytes
}

/// What the source gives for part `index` of an upload.
pub open spec fn upload_read(plan: TransferPlan, data: Seq<u8>, total_bytes: u64, index: int) -> Option<Seq<u8>> {
    window(
        data,
        part_offset(plan.part_size as int, index) as u64,
        part_len(plan.part_size as int, total_bytes as int, index) as usize,
    )
}

/// Whether the source gives part `index` in full.
pub open spec fn upload_readable(plan: TransferPlan, data: Seq<u8>, total_bytes: u64, index: int) -> bool {
    upload_read(plan, data, total_bytes, index) matches Some(bytes) && bytes.len() == part_len(
        plan.part_size as int,
        total_bytes as int,
        index,
    )
}

/// Whether the source gives every part in full.
pub open spec fn all_uploads_readable(plan: TransferPlan, data: Seq<u8>, total_bytes: u64) -> bool {
    forall|i: int| 0 <= i < plan.total_parts ==> #[trigger] upload_readable(plan, data, total_bytes, i)
}

/// Every field of an uploaded part, its bytes as a sequence.
pub open spec fn part_record(part: UploadPart) -> (uuid::Uuid, usize, u64, usize, bool, Seq<u8>) {
    (part.job_id, part.part_index, part.offset, part.total_parts, part.is_big_file, part.bytes@)
}

pub open spec fn part_records(parts: Seq<UploadPart>) -> Seq<(uuid::Uuid, usize, u64, usize, bool, Seq<u8>)> {
    parts.map_values(|p: UploadPart| part_record(p))
}

/// The records of the first `count` parts that an upload of `data` sends.
pub open spec fn planned_records(plan: TransferPlan, data: Seq<u8>, total_bytes: u64, count: int) -> Seq<
    (uuid::Uuid, usize, u64, usize, bool, Seq<u8>),
> {
    Seq::new(
        count as nat,
        |i: int|
            (
                plan.job_id,
                i as usize,
                part_offset(plan.part_size as int, i) as u64,
                plan.total_parts,
                plan.big_file_api,
                upload_read(plan, data, total_bytes, i)->Some_0,
            ),
    )
}

/// Whether `outcome` is the error for part `index`, which the source does not
/// give in full.
pub open spec fn upload_error_at(
    outcome: Result<(), TransferRuntimeError>,
    plan: TransferPlan,
    data: Seq<u8>,
    total_bytes: u64,
    index: int,
) -> bool {
    match upload_read(plan, data, total_bytes, index) {
        None => outcome matches Err(TransferRuntimeError::Message(m)) && m@
            == "upload source out of bounds"@,
        Some(bytes) => outcome == Err::<(), TransferRuntimeError>(
            TransferRuntimeError::ShortRead {
                part_index: index as usize,
                expected: part_len(plan.part_size as int, total_bytes as int, index) as usize,
                actual: bytes.len() as usize,
            },
        ),
    }
}

/// Whether an upload run stopped at part `j`: every part before it was read
/// in full and sent, and part `j` could not be read in full.
pub open spec fn upload_stopped_at(
    outcome: Result<(), TransferRuntimeError>,
    plan: TransferPlan,
    data: Seq<u8>,
    total_bytes: u64,
    before: Seq<(uuid::Uuid, usize, u64, usize, bool, Seq<u8>)>,
    after: Seq<(uuid::Uuid, usize, u64, usize, bool, Seq<u8>)>,
    j: int,
) -> bool {
    &&& 0 <= j < plan.total_parts
    &&& forall|i: int| 0 <= i < j ==> #[trigger] upload_readable(plan, data, total_bytes, i)
    &&& !upload_readable(plan, data, total_bytes, j)
    &&& upload_error_at(outcome, plan, data, total_bytes, j)
    &&& after == before + planned_records(plan, data, total_bytes, j)
}

/// Whether an upload run reaches part `index`: it has workers and every part
/// before it was read in full.
pub open spec fn upload_reaches(plan: TransferPlan, data: Seq<u8>, total_bytes: u64, index: int) -> bool {
    &&& plan.worker_count > 0
    &&& forall|j: int| 0 <= j < index ==> #[trigger] upload_readable(plan, data, total_bytes, j)
}

impl ParallelUploadEngine {
    /// Uploads `total_bytes` of `source` into `backend`, part after part in
    /// index order, stopping at the first error. A plan without workers
    /// moves nothing.
    pub fn run_in_memory(
        &mut self,
        source: &MemoryUploadSource,
        backend: &mut RecordingUploadBackend,
        total_bytes: u64,
    ) -> (outcome: Result<(), TransferRuntimeError>)
        requires
            forall|i: int|
                0 <= i < old(self).plan().total_parts && #[trigger] upload_reaches(
                    old(self).plan(),
                    source@,
                    total_bytes,
                    i,
                ) ==> offset_fits(old(self).plan(), i),
        ensures
            final(self).plan() == old(self).plan(),
            ({
                let plan = old(self).plan();
                let refusal = plan_refusal(plan, TransferDirection::Upload);
                let before = part_records(old(backend)@);
                let after = part_records(final(backend)@);
                &&& refusal is Some ==> start_matches(outcome, refusal) && final(backend)@ == old(
                    backend,
                )@
                &&& refusal is None ==> (outcome is Ok <==> (plan.worker_count == 0
                    || all_uploads_readable(plan, source@, total_bytes)))
                &&& (outcome is Ok && plan.worker_count == 0) ==> final(backend)@ == old(backend)@
                    && final(self).total_bytes() == total_bytes && final(self).peak() == 0
                &&& (outcome is Ok && plan.worker_count > 0) ==> after == before + planned_records(
                    plan,
                    source@,
                    total_bytes,
                    plan.total_parts as int,
                ) && final(self).total_bytes() == total_bytes && final(self).peak() == 1
                &&& (refusal is None && outcome is Err) ==> exists|j: int|
                    upload_stopped_at(outcome, plan, source@, total_bytes, before, after, j)
            }),
    {
        let ghost plan = self.plan();
        let ghost before = part_records(backend@);
        let ghost data = source@;
        self.begin(total_bytes)?;
        if self.worker_count() == 0 {
            return Ok(());
        }
        assert(part_records(backend@) =~= before + planned_records(plan, data, total_bytes, 0));
        loop
            invariant
                self.plan() == plan,
                plan == old(self).plan(),
                before == part_records(old(backend)@),
                plan.worker_count > 0,
                forall|i: int|
                    0 <= i < plan.total_parts && #[trigger] upload_reaches(plan, data, total_bytes, i)
                        ==> offset_fits(plan, i),
                plan_refusal(plan, TransferDirection::Upload) is None,
                self.total_bytes() == total_bytes,
                self.counts_ordered(),
                self.in_flight() == 0,
                self.next_part() == 0 ==> self.peak() == 0,
                self.next_part() > 0 ==> self.peak() == 1,
                data == source@,
                part_records(backend@) == before + planned_records(
                    plan,
                    data,
                    total_bytes,
                    self.next_part() as int,
                ),
                forall|i: int|
                    0 <= i < self.next_part() ==> #[trigger] upload_readable(plan, data, total_bytes, i),
            decreases plan.total_parts - self.next_part(),
        {
            let ghost index = self.next_part() as int;
            let ghost records = part_records(backend@);
            proof {
                if index < plan.total_parts {
                    assert(upload_reaches(plan, data, total_bytes, index));
                }
            }
            match self.claim_part() {
                None => {
                    assert(index == plan.total_parts);
                    return Ok(());
                },
                Some(slot) => {
                    let bytes = match source.read_at(slot.offset, slot.len) {
                        Ok(bytes) => bytes,
                        Err(e) => {
                            assert(upload_stopped_at(
                                Err(e),
                                plan,
                                data,
                                total_bytes,
                                before,
                                part_records(backend@),
                                index,
                            ));
                            return Err(e);
                        },
                    };
                    let part = match self.accept_read(&slot, bytes) {
                        Ok(part) => part,
                        Err(e) => {
                            assert(upload_stopped_at(
                                Err(e),
                                plan,
                                data,
                                total_bytes,
                                before,
                                part_records(backend@),
                                index,
                            ));
                            return Err(e);
                        },
                    };
                    let _ = backend.upload_part(part);
                    self.finish_part();
                    proof {
                        assert(upload_readable(plan, data, total_bytes, index));
                        assert(part_records(backend@) =~= before + planned_records(
                            plan,
                            data,
                            total_bytes,
                            index + 1,
                        )) by {
                            assert(part_records(backend@) =~= records.push(part_record(part)));
                        }
                    }
                },
            }
        }
    }
}

/// What the backend gives for the request of part `index` of a download.
pub open spec fn download_fetch(plan: TransferPlan, data: Seq<u8>, total_bytes: u64, index: int) -> Option<Seq<u8>> {
    let (offset, _, write_len) = download_request_for(plan, total_bytes, index);
    window(data, offset, write_len)
}

/// Whether part `index` of a download goes through: its request keeps the
/// rules, the backend gives all of it, and it fits in a sink of `sink_len`.
pub open spec fn download_step_ok(
    plan: TransferPlan,
    data: Seq<u8>,
    total_bytes: u64,
    sink_len: nat,
    index: int,
) -> bool {
    let (offset, len, write_len) = download_request_for(plan, total_bytes, index);
    &&& download_verdict(offset, len, true) is Ok
    &&& download_fetch(plan, data, total_bytes, index) matches Some(bytes)
    &&& bytes.len() == write_len
    &&& offset as usize + write_len <= sink_len
}

/// Whether every part of a download goes through.
pub open spec fn all_downloads_ok(plan: TransferPlan, data: Seq<u8>, total_bytes: u64, sink_len: nat) -> bool {
    forall|i: int|
        0 <= i < plan.total_parts ==> #[trigger] download_step_ok(plan, data, total_bytes, sink_len, i)
}

/// The sink after writing the first `count` parts of a download in order.
pub open spec fn written_parts(
    sink: Seq<u8>,
    plan: TransferPlan,
    data: Seq<u8>,
    total_bytes: u64,
    count: int,
) -> Seq<u8>
    decreases count,
{
    if count <= 0 {
        sink
    } else {
        let (offset, _, _) = download_request_for(plan, total_bytes, count - 1);
        overwrite(
            written_parts(sink, plan, data, total_bytes, count - 1),
            offset as usize as int,
            download_fetch(plan, data, total_bytes, count - 1)->Some_0,
        )
    }
}

/// Whether `outcome` is the error for part `index`, which does not go
/// through.
pub open spec fn download_error_at(
    outcome: Result<(), TransferRuntimeError>,
    plan: TransferPlan,
    data: Seq<u8>,
    total_bytes: u64,
    index: int,
) -> bool {
    let (offset, len, write_len) = download_request_for(plan, total_bytes, index);
    match download_verdict(offset, len, true) {
        Err(e) => outcome == Err::<(), TransferRuntimeError>(TransferRuntimeError::Rules(e)),
        Ok(_) => match download_fetch(plan, data, total_bytes, index) {
            None => outcome matches Err(TransferRuntimeError::Message(m)) && m@
                == "download source out of bounds"@,
            Some(bytes) => if bytes.len() != write_len {
                outcome == Err::<(), TransferRuntimeError>(
                    TransferRuntimeError::ShortDownload {
                        part_index: index as usize,
                        expected: write_len,
                        actual: bytes.len() as usize,
                    },
                )
            } else {
                outcome matches Err(TransferRuntimeError::Message(m)) && m@
                    == "download sink out of bounds"@
            },
        },
    }
}

/// Whether a download run stopped at part `j`: every part before it went
/// through and was written, and part `j` did not go through.
pub open spec fn download_stopped_at(
    outcome: Result<(), TransferRuntimeError>,
    plan: TransferPlan,
    data: Seq<u8>,
    total_bytes: u64,
    before: Seq<u8>,
    after: Seq<u8>,
    j: int,
) -> bool {
    &&& 0 <= j < plan.total_parts
    &&& forall|i: int|
        0 <= i < j ==> #[trigger] download_step_ok(plan, data, total_bytes, before.len(), i)
    &&& !download_step_ok(plan, data, total_bytes, before.len(), j)
    &&& download_error_at(outcome, plan, data, total_bytes, j)
    &&& after == written_parts(before, plan, data, total_bytes, j)
}

/// Whether a download run into a sink of `sink_len` reaches part `index`: it
/// has workers and every part before it went through.
pub open spec fn download_reaches(
    plan: TransferPlan,
    data: Seq<u8>,
    total_bytes: u64,
    sink_len: nat,
    index: int,
) -> bool {
    &&& plan.worker_count > 0
    &&& forall|j: int|
        0 <= j < index ==> #[trigger] download_step_ok(plan, data, total_bytes, sink_len, j)
}

impl ParallelDownloadEngine {
    /// Downloads `total_bytes` from `backend` into `sink`, part after part in
    /// index order, stopping at the first error. A plan without workers
    /// moves nothing.
    pub fn run_in_memory(
        &mut self,
        backend: &MemoryDownloadBackend,
        sink: &mut MemoryDownloadSink,
        total_bytes: u64,
    ) -> (outcome: Result<(), TransferRuntimeError>)
        requires
            forall|i: int|
                0 <= i < old(self).plan().total_parts && #[trigger] download_reaches(
                    old(self).plan(),
                    backend@,
                    total_bytes,
                    old(sink)@.len(),
                    i,
                ) ==> request_fits(old(self).plan(), total_bytes, i),
        ensures
            final(self).plan() == old(self).plan(),
            final(sink)@.len() == old(sink)@.len(),
            ({
                let plan = old(self).plan();
                let refusal = plan_refusal(plan, TransferDirection::Download);
                &&& refusal is Some ==> start_matches(outcome, refusal) && final(sink)@ == old(sink)@
                &&& refusal is None ==> (outcome is Ok <==> (plan.worker_count == 0
                    || all_downloads_ok(plan, backend@, total_bytes, old(sink)@.len())))
                &&& (outcome is Ok && plan.worker_count == 0) ==> final(sink)@ == old(sink)@
                    && final(self).total_bytes() == total_bytes && final(self).peak() == 0
                &&& (outcome is Ok && plan.worker_count > 0) ==> final(sink)@ == written_parts(
                    old(sink)@,
                    plan,
                    backend@,
                    total_bytes,
                    plan.total_parts as int,
                ) && final(self).total_bytes() == total_bytes && final(self).peak() == 1
                &&& (refusal is None && outcome is Err) ==> exists|j: int|
                    download_stopped_at(
                        outcome,
                        plan,
                        backend@,
                        total_bytes,
                        old(sink)@,
                        final(sink)@,
                        j,
                    )
            }),
    {
        let ghost plan = self.plan();
        let ghost before = sink@;
        let ghost data = backend@;
        self.begin(total_bytes)?;
        if self.worker_count() == 0 {
            return Ok(());
        }
        loop
            invariant
                self.plan() == plan,
                plan == old(self).plan(),
                before == old(sink)@,
                plan.worker_count > 0,
                forall|i: int|
                    0 <= i < plan.total_parts && #[trigger] download_reaches(
                        plan,
                        data,
                        total_bytes,
                        before.len(),
                        i,
                    ) ==> request_fits(plan, total_bytes, i),
                plan_refusal(plan, TransferDirection::Download) is None,
                self.total_bytes() == total_bytes,
                self.counts_ordered(),
                self.in_flight() == 0,
                self.next_part() == 0 ==> self.peak() == 0,
                self.next_part() > 0 ==> self.peak() == 1,
                data == backend@,
                sink@.len() == before.len(),
                sink@ == written_parts(before, plan, data, total_bytes, self.next_part() as int),
                forall|i: int|
                    0 <= i < self.next_part() ==> #[trigger] download_step_ok(
                        plan,
                        data,
                        total_bytes,
                        before.len(),
                        i,
                    ),
            decreases plan.total_parts - self.next_part(),
        {
            let ghost index = self.next_part() as int;
            let ghost written = sink@;
            proof {
                if index < plan.total_parts {
                    assert(download_reaches(plan, data, total_bytes, before.len(), index));
                }
            }
            match self.claim_request() {
                None => {
                    assert(index == plan.total_parts);
                    return Ok(());
                },
                Some(Err(e)) => {
                    assert(download_stopped_at(Err(e), plan, data, total_bytes, before, sink@, index));
                    return Err(e);
                },
                Some(Ok(request)) => {
                    let bytes = match backend.download_part(request) {
                        Ok(bytes) => bytes,
                        Err(e) => {
                            assert(download_stopped_at(
                                Err(e),
                                plan,
                                data,
                                total_bytes,
                                before,
                                sink@,
                                index,
                            ));
                            return Err(e);
                        },
                    };
                    match self.accept_download(&request, bytes.as_slice()) {
                        Ok(()) => {},
                        Err(e) => {
                            assert(download_stopped_at(
                                Err(e),
                                plan,
                                data,
                                total_bytes,
                                before,
                                sink@,
                                index,
                            ));
                            return Err(e);
                        },
                    }
                    match sink.write_at(request.offset, bytes.as_slice()) {
                        Ok(()) => {},
                        Err(e) => {
                            assert(download_stopped_at(
                                Err(e),
                                plan,
                                data,
                                total_bytes,
                                before,
                                sink@,
                                index,
                            ));
                            return Err(e);
                        },
                    }
                    self.finish_part();
                    assert(download_step_ok(plan, data, total_bytes, before.len(), index));
                },
            }
        }
    }
}

} // verus!
