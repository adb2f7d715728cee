//! What holds across the library's functions: how parts cover a file, how the
//! pieces come back together, and what every plan keeps.

use vstd::prelude::*;

use crate::mock::{
    assembled_bytes, concat_in_order, is_offset_order, lemma_offset_order_unique, lists, overwrite,
    window,
};
use crate::planner::{
    clamp_count, download_fan_out, download_part_size, download_plan, planned, upload_fan_out,
};
use crate::runtime::{
    aligned_limit, download_claim_matches, download_claim_step, download_request_for,
    download_schedule_kept, lemma_aligned_limit_bounds, part_len, part_offset, peak_tracks,
    raised_peak, request_is_legal,
    slot_for, tile, tiles_concat, upload_claim_step, upload_schedule_kept, DownloadRequest,
    ParallelDownloadEngine, ParallelUploadEngine, PartSlot, TransferRuntimeError, UploadPart,
};
use crate::telegram::{
    ceil_div, download_verdict, upload_verdict, AppConfigHints, MAX_DOWNLOAD_CHUNK_SIZE,
    RECOMMENDED_UPLOAD_CHUNK_SIZE, SMALL_UPLOAD_CUTOFF,
};
use crate::simulation::{
    all_downloads_ok, all_uploads_readable, download_fetch, download_step_ok, part_records,
    planned_records, upload_read, upload_readable, written_parts,
};
use crate::transfer::{TransferDirection, TransferFeatureConfig, TransferJob, TransferPlan};

verus! {

/// `ceil_div(a, b)` parts of size `b` hold `a` units, and one part fewer does
/// not.
pub proof fn lemma_ceil_div_bounds(a: int, b: int)
    requires
        a >= 0,
        b > 0,
    ensures
        ceil_div(a, b) >= 0,
        ceil_div(a, b) * b >= a,
        a > 0 ==> (ceil_div(a, b) - 1) * b < a,
        a == 0 ==> ceil_div(a, b) == 0,
{
    let q = a / b;
    let r = a % b;
    vstd::arithmetic::div_mod::lemma_fundamental_div_mod(a, b);
    assert(0 <= r < b);
    assert(q >= 0) by (nonlinear_arith)
        requires
            a == b * q + r,
            0 <= r < b,
            a >= 0,
            b > 0,
    ;
    if r == 0 {
        assert(q * b == a) by (nonlinear_arith)
            requires
                a == b * q + r,
                r == 0,
        ;
        assert((q - 1) * b == q * b - b) by (nonlinear_arith);
    } else {
        assert((q + 1) * b == b * q + b) by (nonlinear_arith);
        assert(q * b == b * q) by (nonlinear_arith);
    }
}

/// The first `k` parts of a file are its first `k * part_size` bytes (all of
/// it once those run past the end).
proof fn lemma_tiles_prefix(data: Seq<u8>, part_size: int, k: int)
    requires
        part_size > 0,
        0 <= k,
        k == 0 || (k - 1) * part_size < data.len(),
    ensures
        tiles_concat(data, part_size, k) == data.subrange(
            0,
            if k * part_size < data.len() {
                k * part_size
            } else {
                data.len() as int
            },
        ),
    decreases k,
{
    if k > 0 {
        let offset = (k - 1) * part_size;
        assert(k * part_size == offset + part_size) by (nonlinear_arith)
            requires
                offset == (k - 1) * part_size,
        ;
        assert(offset >= 0) by (nonlinear_arith)
            requires
                k >= 1,
                part_size > 0,
                offset == (k - 1) * part_size,
        ;
        if k > 1 {
            assert((k - 2) * part_size == offset - part_size) by (nonlinear_arith)
                requires
                    offset == (k - 1) * part_size,
            ;
        }
        lemma_tiles_prefix(data, part_size, k - 1);
        assert(part_offset(part_size, k - 1) == offset);
        assert(tiles_concat(data, part_size, k) =~= data.subrange(
            0,
            if k * part_size < data.len() {
                k * part_size
            } else {
                data.len() as int
            },
        ));
    }
}

/// The parts of a plan whose part count is the ceiling of the file size over
/// the part size cover the file exactly: put one after another, their bytes
/// are the file.
pub proof fn lemma_parts_cover_file(data: Seq<u8>, part_size: int, total_parts: int)
    requires
        part_size > 0,
        total_parts == ceil_div(data.len() as int, part_size),
    ensures
        tiles_concat(data, part_size, total_parts) == data,
{
    lemma_ceil_div_bounds(data.len() as int, part_size);
    lemma_tiles_prefix(data, part_size, total_parts);
    assert(data.subrange(0, data.len() as int) =~= data);
}

/// Each part of a plan that covers a file starts inside the file and holds at
/// least one byte, at most a whole part.
pub proof fn lemma_part_inside_file(total_bytes: int, part_size: int, total_parts: int, index: int)
    requires
        part_size > 0,
        total_parts == ceil_div(total_bytes, part_size),
        total_bytes >= 0,
        0 <= index < total_parts,
    ensures
        0 <= part_offset(part_size, index) < total_bytes,
        0 < part_len(part_size, total_bytes, index) <= part_size,
        part_offset(part_size, index) + part_len(part_size, total_bytes, index) <= total_bytes,
{
    lemma_ceil_div_bounds(total_bytes, part_size);
    assert(index * part_size <= (total_parts - 1) * part_size) by (nonlinear_arith)
        requires
            index <= total_parts - 1,
            part_size > 0,
    ;
    assert(index * part_size >= 0) by (nonlinear_arith)
        requires
            index >= 0,
            part_size > 0,
    ;
}

/// Reading part `index` out of the file in memory gives the part's bytes.
pub proof fn lemma_memory_read_is_tile(data: Seq<u8>, part_size: int, total_parts: int, index: int)
    requires
        part_size > 0,
        total_parts == ceil_div(data.len() as int, part_size),
        0 <= index < total_parts,
        data.len() <= usize::MAX,
    ensures
        window(
            data,
            part_offset(part_size, index) as u64,
            part_len(part_size, data.len() as int, index) as usize,
        ) == Some(tile(data, part_size, index)),
{
    lemma_part_inside_file(data.len() as int, part_size, total_parts, index);
}

/// Whether `part` is part `offset / part_size` of `data`, with that part's
/// bytes.
pub open spec fn is_tile_part(part: UploadPart, data: Seq<u8>, part_size: int) -> bool {
    let index = part.offset as int / part_size;
    &&& part.offset as int % part_size == 0
    &&& 0 <= index < ceil_div(data.len() as int, part_size)
    &&& part.bytes@ == tile(data, part_size, index)
}

/// A sequence that rises strictly climbs by at least one a step.
proof fn lemma_strictly_rising(f: Seq<int>, j: int, k: int)
    requires
        forall|a: int, b: int| 0 <= a < b < f.len() ==> #[trigger] f[a] < #[trigger] f[b],
        0 <= j <= k < f.len(),
    ensures
        f[k] >= f[j] + (k - j),
    decreases k - j,
{
    if j < k {
        lemma_strictly_rising(f, j, k - 1);
        assert(f[k - 1] < f[k]);
    }
}

/// When the kept parts are the parts of `data`, each once, putting them
/// together in order of offset gives back `data`.
pub proof fn lemma_assembled_parts_restore_data(
    parts: Seq<UploadPart>,
    order: Seq<usize>,
    data: Seq<u8>,
    part_size: int,
)
    requires
        part_size > 0,
        parts.len() == ceil_div(data.len() as int, part_size),
        forall|k: int| 0 <= k < parts.len() ==> is_tile_part(#[trigger] parts[k], data, part_size),
        forall|k: int, l: int|
            0 <= k < l < parts.len() ==> #[trigger] parts[k].offset != #[trigger] parts[l].offset,
        is_offset_order(parts, order),
    ensures
        concat_in_order(parts, order) == data,
        assembled_bytes(parts) == data,
{
    let chosen = choose|o: Seq<usize>| is_offset_order(parts, o);
    lemma_offset_order_unique(parts, order, chosen);
    let n = parts.len() as int;
    let f = Seq::new(n as nat, |k: int| parts[order[k] as int].offset as int / part_size);
    assert forall|a: int, b: int| 0 <= a < b < f.len() implies #[trigger] f[a] < #[trigger] f[b] by {
        let i = order[a] as int;
        let j = order[b] as int;
        assert(crate::mock::arrives_before(parts, i, j));
        assert(i != j);
        assert(is_tile_part(parts[i], data, part_size));
        assert(is_tile_part(parts[j], data, part_size));
        if i < j {
            assert(parts[i].offset != parts[j].offset);
        } else {
            assert(parts[j].offset != parts[i].offset);
        }
        let oi = parts[i].offset as int;
        let oj = parts[j].offset as int;
        assert(oi < oj);
        vstd::arithmetic::div_mod::lemma_fundamental_div_mod(oi, part_size);
        vstd::arithmetic::div_mod::lemma_fundamental_div_mod(oj, part_size);
        assert(oi / part_size < oj / part_size) by (nonlinear_arith)
            requires
                oi == part_size * (oi / part_size),
                oj == part_size * (oj / part_size),
                oi < oj,
                part_size > 0,
        ;
    }
    assert forall|k: int| 0 <= k < n implies #[trigger] f[k] == k by {
        lemma_strictly_rising(f, 0, k);
        lemma_strictly_rising(f, k, n - 1);
        assert(is_tile_part(parts[order[k] as int], data, part_size));
        assert(is_tile_part(parts[order[0] as int], data, part_size));
        assert(is_tile_part(parts[order[n - 1] as int], data, part_size));
    }
    assert forall|k: int| 0 <= k <= n implies #[trigger] concat_in_order(parts, order.take(k))
        == tiles_concat(data, part_size, k) by {
        lemma_assembled_prefix(parts, order, data, part_size, f, k);
    }
    assert(order.take(n) =~= order);
    lemma_parts_cover_file(data, part_size, n);
}

proof fn lemma_assembled_prefix(
    parts: Seq<UploadPart>,
    order: Seq<usize>,
    data: Seq<u8>,
    part_size: int,
    f: Seq<int>,
    k: int,
)
    requires
        part_size > 0,
        forall|j: int| 0 <= j < parts.len() ==> is_tile_part(#[trigger] parts[j], data, part_size),
        is_offset_order(parts, order),
        f.len() == order.len(),
        forall|j: int| 0 <= j < f.len() ==> #[trigger] f[j] == j,
        forall|j: int|
            0 <= j < f.len() ==> f[j] == parts[#[trigger] order[j] as int].offset as int / part_size,
        0 <= k <= order.len(),
    ensures
        concat_in_order(parts, order.take(k)) == tiles_concat(data, part_size, k),
    decreases k,
{
    if k > 0 {
        lemma_assembled_prefix(parts, order, data, part_size, f, k - 1);
        assert(order.take(k).drop_last() =~= order.take(k - 1));
        let i = order[k - 1] as int;
        assert(f[k - 1] == k - 1);
        assert(is_tile_part(parts[i], data, part_size));
    }
}

/// The sink after writing, in the order `writes` lists them, the parts of
/// `data` that `writes` names.
pub open spec fn write_tiles(sink: Seq<u8>, data: Seq<u8>, part_size: int, writes: Seq<int>) -> Seq<u8>
    decreases writes.len(),
{
    if writes.len() == 0 {
        sink
    } else {
        let index = writes.last();
        overwrite(
            write_tiles(sink, data, part_size, writes.drop_last()),
            part_offset(part_size, index),
            tile(data, part_size, index),
        )
    }
}

/// Whether byte `p` lies in part `index`.
pub open spec fn in_part(p: int, total_bytes: int, part_size: int, index: int) -> bool {
    part_offset(part_size, index) <= p < part_offset(part_size, index) + part_len(
        part_size,
        total_bytes,
        index,
    )
}

proof fn lemma_write_tiles_invariant(sink: Seq<u8>, data: Seq<u8>, part_size: int, writes: Seq<int>)
    requires
        part_size > 0,
        sink.len() == data.len(),
        forall|k: int|
            0 <= k < writes.len() ==> 0 <= #[trigger] writes[k] < ceil_div(data.len() as int, part_size),
    ensures
        write_tiles(sink, data, part_size, writes).len() == data.len(),
        forall|p: int, k: int|
            0 <= k < writes.len() && #[trigger] in_part(p, data.len() as int, part_size, writes[k])
                ==> #[trigger] write_tiles(sink, data, part_size, writes)[p] == data[p],
    decreases writes.len(),
{
    if writes.len() > 0 {
        let earlier = writes.drop_last();
        lemma_write_tiles_invariant(sink, data, part_size, earlier);
        let index = writes.last();
        let before = write_tiles(sink, data, part_size, earlier);
        lemma_part_inside_file(
            data.len() as int,
            part_size,
            ceil_div(data.len() as int, part_size),
            index,
        );
        let offset = part_offset(part_size, index);
        let after = write_tiles(sink, data, part_size, writes);
        assert(after.len() == data.len());
        assert forall|p: int, k: int|
            0 <= k < writes.len() && #[trigger] in_part(p, data.len() as int, part_size, writes[k])
                implies #[trigger] after[p] == data[p] by {
            if in_part(p, data.len() as int, part_size, index) {
                assert(after[p] == tile(data, part_size, index)[p - offset]);
            } else {
                assert(k < writes.len() - 1);
                assert(earlier[k] == writes[k]);
                assert(after[p] == before[p]);
            }
        }
    }
}

/// Whether `writes` names part `index` at least once.
pub open spec fn names_part(writes: Seq<int>, index: int) -> bool {
    exists|k: int| 0 <= k < writes.len() && #[trigger] writes[k] == index
}

/// Writing every part of `data` into a sink of its size, in any order and
/// any part more than once, leaves `data` in the sink.
pub proof fn lemma_written_parts_restore_data(sink: Seq<u8>, data: Seq<u8>, part_size: int, writes: Seq<int>)
    requires
        part_size > 0,
        sink.len() == data.len(),
        forall|k: int|
            0 <= k < writes.len() ==> 0 <= #[trigger] writes[k] < ceil_div(data.len() as int, part_size),
        forall|i: int|
            0 <= i < ceil_div(data.len() as int, part_size) ==> #[trigger] names_part(writes, i),
    ensures
        write_tiles(sink, data, part_size, writes) == data,
{
    lemma_write_tiles_invariant(sink, data, part_size, writes);
    let n = ceil_div(data.len() as int, part_size);
    lemma_ceil_div_bounds(data.len() as int, part_size);
    let result = write_tiles(sink, data, part_size, writes);
    assert forall|p: int| 0 <= p < data.len() implies #[trigger] result[p] == data[p] by {
        let i = p / part_size;
        vstd::arithmetic::div_mod::lemma_fundamental_div_mod(p, part_size);
        assert(i * part_size <= p < i * part_size + part_size) by (nonlinear_arith)
            requires
                p == part_size * i + p % part_size,
                0 <= p % part_size < part_size,
        ;
        assert(0 <= i < n) by (nonlinear_arith)
            requires
                i * part_size <= p,
                p < data.len(),
                data.len() <= n * part_size,
                p >= 0,
                part_size > 0,
                i == p / part_size,
        ;
        assert(names_part(writes, i));
        let k = choose|k: int| 0 <= k < writes.len() && #[trigger] writes[k] == i;
        assert(in_part(p, data.len() as int, part_size, writes[k]));
    }
    assert(result =~= data);
}

/// An accepted upload is cut into just enough parts: together they hold the
/// file, and one part fewer would not.
pub proof fn lemma_upload_part_count(total_bytes: u64, part_size: usize, part_limit: usize)
    requires
        ceil_div(total_bytes as int, part_size as int) <= usize::MAX,
    ensures
        upload_verdict(total_bytes, part_size, part_limit) matches Ok(parts) ==> {
            &&& parts <= part_limit
            &&& parts * part_size >= total_bytes
            &&& total_bytes > 0 ==> (parts - 1) * part_size < total_bytes
        },
{
    if part_size > 0 {
        lemma_ceil_div_bounds(total_bytes as int, part_size as int);
    }
}

/// The part size of a plan: uploads use 512 KiB parts, downloads 512 KiB or
/// 1 MiB parts by policy.
pub open spec fn planned_part_size(feature: TransferFeatureConfig, job: TransferJob) -> usize {
    match job.direction {
        TransferDirection::Upload => RECOMMENDED_UPLOAD_CHUNK_SIZE,
        TransferDirection::Download => download_part_size(feature.policy),
    }
}

/// A download job always gets a plan.
pub proof fn lemma_downloads_always_planned(
    feature: TransferFeatureConfig,
    hints: AppConfigHints,
    job: TransferJob,
)
    requires
        job.direction == TransferDirection::Download,
    ensures
        planned(feature, hints, job) is Ok,
{
}

/// An upload job gets a plan exactly when its 512 KiB parts number no more
/// than the account's part limit; otherwise the refusal names both numbers.
pub proof fn lemma_upload_planned_iff_parts_fit(
    feature: TransferFeatureConfig,
    hints: AppConfigHints,
    job: TransferJob,
)
    requires
        job.direction == TransferDirection::Upload,
    ensures
        ({
            let parts = ceil_div(job.total_bytes as int, RECOMMENDED_UPLOAD_CHUNK_SIZE as int) as usize;
            let limit = hints.part_limit(job.tier);
            &&& planned(feature, hints, job) is Ok <==> parts <= limit
            &&& parts > limit ==> planned(feature, hints, job) == Err::<
                crate::transfer::PlanView,
                crate::telegram::TelegramRuleError,
            >(
                crate::telegram::TelegramRuleError::TooManyUploadParts {
                    total_parts: parts,
                    part_limit: limit,
                },
            )
        }),
{
}

/// A plan cuts its job into parts of its part size, as many as cover the
/// file and no more.
pub proof fn lemma_plan_covers_job(feature: TransferFeatureConfig, hints: AppConfigHints, job: TransferJob)
    requires
        ceil_div(job.total_bytes as int, planned_part_size(feature, job) as int) <= usize::MAX,
    ensures
        planned(feature, hints, job) matches Ok(plan) ==> {
            &&& plan.part_size == planned_part_size(feature, job)
            &&& plan.total_parts == ceil_div(job.total_bytes as int, plan.part_size as int)
            &&& plan.total_parts * plan.part_size >= job.total_bytes
            &&& job.total_bytes > 0 ==> (plan.total_parts - 1) * plan.part_size < job.total_bytes
            &&& job.total_bytes == 0 ==> plan.total_parts == 0
        },
{
    lemma_ceil_div_bounds(job.total_bytes as int, planned_part_size(feature, job) as int);
}

/// Small uploads run on one worker and need the final MD5; big uploads and
/// all downloads get a worker count inside the configured bounds.
pub proof fn lemma_worker_count_bounds(
    feature: TransferFeatureConfig,
    hints: AppConfigHints,
    job: TransferJob,
)
    requires
        feature.min_workers <= feature.max_workers,
    ensures
        planned(feature, hints, job) matches Ok(plan) ==> {
            &&& plan.big_file_api <==> (job.direction == TransferDirection::Upload
                && job.total_bytes > SMALL_UPLOAD_CUTOFF)
            &&& plan.needs_md5_for_finalize <==> (job.direction == TransferDirection::Upload
                && !plan.big_file_api)
            &&& job.direction == TransferDirection::Upload && !plan.big_file_api ==> plan.worker_count
                == 1
            &&& (plan.big_file_api || job.direction == TransferDirection::Download) ==> feature.min_workers
                <= plan.worker_count <= feature.max_workers
        },
{
}

/// A plan belongs to its job and carries the configuration's switches: a
/// download checks hashes exactly when the feature config asks for hash
/// checks and follows CDN redirects exactly when it allows them; an upload
/// does neither. The number of files that may move at once is the server's
/// queue hint for the file's size, else 1 for big files and 2 for small ones.
pub proof fn lemma_plan_follows_config(feature: TransferFeatureConfig, hints: AppConfigHints, job: TransferJob)
    ensures
        planned(feature, hints, job) matches Ok(plan) ==> {
            &&& plan.job_id == job.id
            &&& plan.direction == job.direction
            &&& job.direction == TransferDirection::Download ==> {
                &&& plan.verify_hashes == feature.verify_download_hashes
                &&& plan.allow_cdn == feature.allow_cdn_redirects
            }
            &&& job.direction == TransferDirection::Upload ==> !plan.verify_hashes && !plan.allow_cdn
            &&& {
                let hint = if job.total_bytes <= 64 * 1024 * 1024 {
                    hints.small_queue_max_active_operations_count
                } else {
                    hints.large_queue_max_active_operations_count
                };
                let big = if job.direction == TransferDirection::Upload {
                    job.total_bytes > 10 * 1024 * 1024
                } else {
                    job.total_bytes > 64 * 1024 * 1024
                };
                &&& hint matches Some(limit) ==> plan.parallel_file_budget == limit
                &&& hint is None ==> plan.parallel_file_budget == if big {
                    1usize
                } else {
                    2usize
                }
            }
        },
{
}

/// A bigger file never gets fewer workers than a smaller one under the same
/// configuration (among downloads, and among big uploads).
pub proof fn lemma_workers_grow_with_size(
    feature: TransferFeatureConfig,
    hints: AppConfigHints,
    smaller: TransferJob,
    larger: TransferJob,
)
    requires
        feature.min_workers <= feature.max_workers,
        smaller.direction == larger.direction,
        smaller.total_bytes <= larger.total_bytes,
        smaller.direction == TransferDirection::Upload ==> smaller.total_bytes > SMALL_UPLOAD_CUTOFF,
        planned(feature, hints, smaller) is Ok,
        planned(feature, hints, larger) is Ok,
    ensures
        planned(feature, hints, smaller)->Ok_0.worker_count <= planned(
            feature,
            hints,
            larger,
        )->Ok_0.worker_count,
{
    let (a, b) = match smaller.direction {
        TransferDirection::Upload => (
            upload_fan_out(feature.policy, smaller.total_bytes),
            upload_fan_out(feature.policy, larger.total_bytes),
        ),
        TransferDirection::Download => (
            download_fan_out(feature.policy, smaller.total_bytes),
            download_fan_out(feature.policy, larger.total_bytes),
        ),
    };
    assert(a <= b);
    assert(clamp_count(a, feature.min_workers, feature.max_workers) <= clamp_count(
        b,
        feature.min_workers,
        feature.max_workers,
    ));
}

/// More units never need fewer pieces.
pub proof fn lemma_ceil_div_monotone(a: int, c: int, b: int)
    requires
        0 <= a <= c,
        b > 0,
    ensures
        ceil_div(a, b) <= ceil_div(c, b),
{
    lemma_ceil_div_bounds(a, b);
    lemma_ceil_div_bounds(c, b);
    let x = ceil_div(a, b);
    let y = ceil_div(c, b);
    if a > 0 && x > y {
        assert(y * b <= (x - 1) * b) by (nonlinear_arith)
            requires
                y <= x - 1,
                b > 0,
        ;
    }
}

/// Among uploads of one account under one configuration, a bigger file never
/// gets fewer parts, never fewer workers, and uses the big-file API whenever a
/// smaller one does.
pub proof fn lemma_upload_plans_grow_with_size(
    feature: TransferFeatureConfig,
    hints: AppConfigHints,
    smaller: TransferJob,
    larger: TransferJob,
)
    requires
        1 <= feature.min_workers <= feature.max_workers,
        smaller.direction == TransferDirection::Upload,
        larger.direction == TransferDirection::Upload,
        smaller.tier == larger.tier,
        smaller.total_bytes <= larger.total_bytes,
        ceil_div(larger.total_bytes as int, RECOMMENDED_UPLOAD_CHUNK_SIZE as int) <= usize::MAX,
        planned(feature, hints, smaller) is Ok,
        planned(feature, hints, larger) is Ok,
    ensures
        ({
            let a = planned(feature, hints, smaller)->Ok_0;
            let b = planned(feature, hints, larger)->Ok_0;
            &&& a.total_parts <= b.total_parts
            &&& a.worker_count <= b.worker_count
            &&& a.big_file_api ==> b.big_file_api
        }),
{
    let ps = RECOMMENDED_UPLOAD_CHUNK_SIZE as int;
    lemma_ceil_div_monotone(smaller.total_bytes as int, larger.total_bytes as int, ps);
    lemma_ceil_div_bounds(smaller.total_bytes as int, ps);
    if smaller.total_bytes > SMALL_UPLOAD_CUTOFF {
        let x = upload_fan_out(feature.policy, smaller.total_bytes);
        let y = upload_fan_out(feature.policy, larger.total_bytes);
        assert(x <= y);
        assert(clamp_count(x, feature.min_workers, feature.max_workers) <= clamp_count(
            y,
            feature.min_workers,
            feature.max_workers,
        ));
    }
}

/// Every request that a download engine makes for a plan of the planner
/// keeps Telegram's precise download rules: aligned offset and length, at most
/// 1 MiB, inside one 1 MiB window.
pub proof fn lemma_planned_download_requests_follow_rules(
    feature: TransferFeatureConfig,
    hints: AppConfigHints,
    job: TransferJob,
    plan: TransferPlan,
    index: int,
)
    requires
        job.direction == TransferDirection::Download,
        plan@ == download_plan(feature, hints, job),
        ceil_div(job.total_bytes as int, plan.part_size as int) <= usize::MAX,
        0 <= index < plan.total_parts,
    ensures
        ({
            let (offset, len, _) = download_request_for(plan, job.total_bytes, index);
            download_verdict(offset, len, true) is Ok
        }),
{
    let ps = plan.part_size as int;
    let total = job.total_bytes as int;
    let w = MAX_DOWNLOAD_CHUNK_SIZE as int;
    assert(ps == 524288 || ps == 1048576);
    lemma_part_inside_file(total, ps, plan.total_parts as int, index);
    let off = part_offset(ps, index);
    let wlen = part_len(ps, total, index);
    lemma_aligned_limit_bounds(wlen);
    let lim = aligned_limit(wlen);
    // the aligned length stays within the part size
    let a = lim / 1024;
    let c = ps / 1024;
    vstd::arithmetic::div_mod::lemma_fundamental_div_mod(lim, 1024);
    assert(ps == 1024 * c);
    assert(lim <= ps) by (nonlinear_arith)
        requires
            lim == 1024 * a,
            ps == 1024 * c,
            lim < wlen + 1024,
            wlen <= ps,
    ;
    // the offset is a multiple of the alignment
    assert(off == (index * c) * 1024) by (nonlinear_arith)
        requires
            off == index * ps,
            ps == 1024 * c,
    ;
    vstd::arithmetic::div_mod::lemma_mod_multiples_basic(index * c, 1024);
    // the request stays inside one window
    if ps == w {
        vstd::arithmetic::div_mod::lemma_fundamental_div_mod_converse(off, w, index, 0);
        assert(off + lim - 1 == index * w + (lim - 1));
        vstd::arithmetic::div_mod::lemma_fundamental_div_mod_converse(off + lim - 1, w, index, lim - 1);
    } else {
        let q = index / 2;
        let r = index % 2;
        vstd::arithmetic::div_mod::lemma_fundamental_div_mod(index, 2);
        assert(off == q * w + r * ps) by (nonlinear_arith)
            requires
                off == index * ps,
                index == 2 * q + r,
                w == 2 * ps,
        ;
        assert(0 <= r * ps <= ps) by (nonlinear_arith)
            requires
                0 <= r < 2,
                ps > 0,
        ;
        vstd::arithmetic::div_mod::lemma_fundamental_div_mod_converse(off, w, q, r * ps);
        vstd::arithmetic::div_mod::lemma_fundamental_div_mod_converse(
            off + lim - 1,
            w,
            q,
            r * ps + lim - 1,
        );
    }
}

/// When a plan covers a file held in memory, every part of an upload reads in
/// full, and reads that part's bytes.
pub proof fn lemma_memory_upload_reads_every_part(plan: TransferPlan, data: Seq<u8>)
    requires
        plan.part_size > 0,
        plan.total_parts == ceil_div(data.len() as int, plan.part_size as int),
        data.len() <= usize::MAX,
        data.len() <= u64::MAX,
    ensures
        all_uploads_readable(plan, data, data.len() as u64),
        forall|i: int|
            0 <= i < plan.total_parts ==> #[trigger] upload_read(plan, data, data.len() as u64, i)
                == Some(tile(data, plan.part_size as int, i)),
{
    assert forall|i: int| 0 <= i < plan.total_parts implies #[trigger] upload_read(
        plan,
        data,
        data.len() as u64,
        i,
    ) == Some(tile(data, plan.part_size as int, i)) by {
        lemma_memory_read_is_tile(data, plan.part_size as int, plan.total_parts as int, i);
    }
    assert forall|i: int| 0 <= i < plan.total_parts implies #[trigger] upload_readable(
        plan,
        data,
        data.len() as u64,
        i,
    ) by {
        lemma_memory_read_is_tile(data, plan.part_size as int, plan.total_parts as int, i);
        lemma_part_inside_file(data.len() as int, plan.part_size as int, plan.total_parts as int, i);
    }
}

/// An upload of a file held in memory, run part after part with a plan that
/// covers the file, leaves in the recording backend parts that put together in
/// order of offset give back the file.
pub proof fn lemma_memory_upload_restores_file(
    plan: TransferPlan,
    data: Seq<u8>,
    parts: Seq<UploadPart>,
)
    requires
        plan.part_size > 0,
        plan.total_parts == ceil_div(data.len() as int, plan.part_size as int),
        data.len() <= usize::MAX,
        data.len() <= u64::MAX,
        part_records(parts) == planned_records(plan, data, data.len() as u64, plan.total_parts as int),
    ensures
        assembled_bytes(parts) == data,
{
    let ps = plan.part_size as int;
    let n = plan.total_parts as int;
    lemma_memory_upload_reads_every_part(plan, data);
    assert(parts.len() == n) by {
        assert(part_records(parts).len() == parts.len());
    }
    assert forall|k: int| 0 <= k < parts.len() implies #[trigger] parts[k].offset as int == k * ps
        && parts[k].bytes@ == tile(data, ps, k) by {
        assert(part_records(parts)[k] == planned_records(plan, data, data.len() as u64, n)[k]);
        lemma_part_inside_file(data.len() as int, ps, n, k);
        assert(upload_read(plan, data, data.len() as u64, k) == Some(tile(data, ps, k)));
    }
    assert forall|k: int| 0 <= k < parts.len() implies is_tile_part(#[trigger] parts[k], data, ps) by {
        let o = parts[k].offset as int;
        assert(o == k * ps);
        vstd::arithmetic::div_mod::lemma_fundamental_div_mod_converse(o, ps, k, 0);
    }
    assert forall|k: int, l: int| 0 <= k < l < parts.len() implies #[trigger] parts[k].offset
        != #[trigger] parts[l].offset by {
        assert(parts[k].offset as int == k * ps);
        assert(parts[l].offset as int == l * ps);
        assert(k * ps < l * ps) by (nonlinear_arith)
            requires
                k < l,
                ps > 0,
        ;
    }
    let order = Seq::new(n as nat, |k: int| k as usize);
    assert forall|i: int| 0 <= i < parts.len() implies #[trigger] lists(order, i) by {
        assert(order[i] == i);
    }
    assert forall|k: int, l: int| 0 <= k < l < order.len() implies crate::mock::arrives_before(
        parts,
        #[trigger] order[k] as int,
        #[trigger] order[l] as int,
    ) by {
        assert(parts[k].offset as int == k * ps);
        assert(parts[l].offset as int == l * ps);
        assert(k * ps < l * ps) by (nonlinear_arith)
            requires
                k < l,
                ps > 0,
        ;
    }
    assert(is_offset_order(parts, order));
    lemma_assembled_parts_restore_data(parts, order, data, ps);
}

/// The parts of a download written in order are the parts written as
/// `write_tiles` names them, when the plan covers the file.
proof fn lemma_written_parts_are_tiles(sink: Seq<u8>, plan: TransferPlan, data: Seq<u8>, count: int)
    requires
        plan.part_size > 0,
        plan.total_parts == ceil_div(data.len() as int, plan.part_size as int),
        data.len() <= usize::MAX,
        data.len() <= u64::MAX,
        0 <= count <= plan.total_parts,
    ensures
        written_parts(sink, plan, data, data.len() as u64, count) == write_tiles(
            sink,
            data,
            plan.part_size as int,
            Seq::new(count as nat, |i: int| i),
        ),
    decreases count,
{
    if count > 0 {
        lemma_written_parts_are_tiles(sink, plan, data, count - 1);
        let writes = Seq::new(count as nat, |i: int| i);
        assert(writes.drop_last() =~= Seq::new((count - 1) as nat, |i: int| i));
        let i = count - 1;
        lemma_memory_read_is_tile(data, plan.part_size as int, plan.total_parts as int, i);
        lemma_part_inside_file(data.len() as int, plan.part_size as int, plan.total_parts as int, i);
        assert(download_fetch(plan, data, data.len() as u64, i) == Some(
            tile(data, plan.part_size as int, i),
        ));
    }
}

/// A download from a file held in memory, run part after part with a plan
/// that covers the file into a sink of the file's size, leaves the file in
/// the sink.
pub proof fn lemma_memory_download_restores_file(sink: Seq<u8>, plan: TransferPlan, data: Seq<u8>)
    requires
        plan.part_size > 0,
        plan.total_parts == ceil_div(data.len() as int, plan.part_size as int),
        data.len() <= usize::MAX,
        data.len() <= u64::MAX,
        sink.len() == data.len(),
    ensures
        written_parts(sink, plan, data, data.len() as u64, plan.total_parts as int) == data,
{
    let n = plan.total_parts as int;
    lemma_written_parts_are_tiles(sink, plan, data, n);
    let writes = Seq::new(n as nat, |i: int| i);
    assert forall|i: int| 0 <= i < ceil_div(data.len() as int, plan.part_size as int) implies #[trigger] names_part(
        writes,
        i,
    ) by {
        assert(writes[i] == i);
    }
    lemma_written_parts_restore_data(sink, data, plan.part_size as int, writes);
}

/// Every part of a planner's download plan goes through against a file held
/// in memory and a sink of the file's size.
pub proof fn lemma_planned_memory_download_goes_through(
    feature: TransferFeatureConfig,
    hints: AppConfigHints,
    job: TransferJob,
    plan: TransferPlan,
    data: Seq<u8>,
)
    requires
        job.direction == TransferDirection::Download,
        plan@ == download_plan(feature, hints, job),
        data.len() == job.total_bytes,
        data.len() <= usize::MAX,
        ceil_div(job.total_bytes as int, plan.part_size as int) <= usize::MAX,
    ensures
        all_downloads_ok(plan, data, job.total_bytes, data.len()),
{
    assert forall|i: int| 0 <= i < plan.total_parts implies #[trigger] download_step_ok(
        plan,
        data,
        job.total_bytes,
        data.len(),
        i,
    ) by {
        lemma_planned_download_requests_follow_rules(feature, hints, job, plan, i);
        lemma_memory_read_is_tile(data, plan.part_size as int, plan.total_parts as int, i);
        lemma_part_inside_file(data.len() as int, plan.part_size as int, plan.total_parts as int, i);
    }
}

/// A planner's download plan has a part size that is a multiple of 1 KiB and
/// divides the 1 MiB window, and every request a download engine makes for
/// it keeps the precise download rules.
pub proof fn lemma_planned_download_requests_legal(
    feature: TransferFeatureConfig,
    hints: AppConfigHints,
    job: TransferJob,
    plan: TransferPlan,
)
    requires
        job.direction == TransferDirection::Download,
        plan@ == download_plan(feature, hints, job),
        ceil_div(job.total_bytes as int, plan.part_size as int) <= usize::MAX,
    ensures
        MAX_DOWNLOAD_CHUNK_SIZE % plan.part_size == 0,
        plan.part_size % 1024 == 0,
        forall|i: int|
            0 <= i < plan.total_parts ==> #[trigger] request_is_legal(plan, job.total_bytes, i),
{
    assert forall|i: int| 0 <= i < plan.total_parts implies #[trigger] request_is_legal(
        plan,
        job.total_bytes,
        i,
    ) by {
        lemma_planned_download_requests_follow_rules(feature, hints, job, plan, i);
    }
}

/// A claim raises the peak to the new number of parts in flight when that is
/// more than the peak so far, and leaves it otherwise: the peak is the larger
/// of the two.
pub proof fn lemma_raised_peak_is_larger(peak: usize, in_flight: usize)
    requires
        in_flight + 1 <= usize::MAX,
    ensures
        raised_peak(peak, in_flight) >= peak,
        raised_peak(peak, in_flight) >= in_flight + 1,
        raised_peak(peak, in_flight) == peak || raised_peak(peak, in_flight) == in_flight + 1,
{
}

proof fn lemma_running_peak(peaks: Seq<usize>, in_flights: Seq<usize>, k: int)
    requires
        peaks.len() == in_flights.len(),
        0 <= k < peaks.len(),
        peaks[0] == 0,
        in_flights[0] == 0,
        forall|i: int|
            0 <= i < peaks.len() - 1 ==> #[trigger] peak_tracks(peaks[i], peaks[i + 1], in_flights[i + 1]),
    ensures
        forall|j: int| 0 <= j <= k ==> peaks[k] >= #[trigger] in_flights[j],
        exists|j: int| 0 <= j <= k && peaks[k] == #[trigger] in_flights[j],
    decreases k,
{
    if k > 0 {
        lemma_running_peak(peaks, in_flights, k - 1);
        let i = k - 1;
        assert(peak_tracks(peaks[i], peaks[i + 1], in_flights[i + 1]));
        if peaks[k] == peaks[k - 1] {
            let j = choose|j: int| 0 <= j <= k - 1 && peaks[k - 1] == #[trigger] in_flights[j];
            assert(0 <= j <= k && peaks[k] == in_flights[j]);
        } else {
            assert(peaks[k] == in_flights[k]);
        }
    } else {
        assert(peaks[0] == in_flights[0]);
    }
}

/// Over any run of operations on an upload engine that starts idle (no part
/// in flight and peak 0, as `new` and `begin` leave it), the peak at each
/// point is the largest number of parts that were in flight at once up to
/// that point: never below any earlier in-flight count, and equal to one.
pub proof fn lemma_upload_peak_is_most_in_flight(states: Seq<ParallelUploadEngine>)
    requires
        states.len() > 0,
        states[0].peak() == 0,
        states[0].in_flight() == 0,
        forall|k: int|
            0 <= k < states.len() - 1 ==> #[trigger] peak_tracks(
                states[k].peak(),
                states[k + 1].peak(),
                states[k + 1].in_flight(),
            ),
    ensures
        forall|k: int, j: int|
            0 <= j <= k < states.len() ==> #[trigger] states[k].peak() >= #[trigger] states[j].in_flight(),
        forall|k: int|
            0 <= k < states.len() ==> exists|j: int|
                0 <= j <= k && #[trigger] states[k].peak() == #[trigger] states[j].in_flight(),
{
    let peaks = Seq::new(states.len(), |k: int| states[k].peak());
    let in_flights = Seq::new(states.len(), |k: int| states[k].in_flight());
    assert forall|i: int| 0 <= i < peaks.len() - 1 implies #[trigger] peak_tracks(
        peaks[i],
        peaks[i + 1],
        in_flights[i + 1],
    ) by {
        assert(peak_tracks(states[i].peak(), states[i + 1].peak(), states[i + 1].in_flight()));
    }
    assert forall|k: int| #![trigger states[k]] 0 <= k < states.len() implies {
        &&& forall|j: int| 0 <= j <= k ==> states[k].peak() >= #[trigger] states[j].in_flight()
        &&& exists|j: int| 0 <= j <= k && states[k].peak() == #[trigger] states[j].in_flight()
    } by {
        lemma_running_peak(peaks, in_flights, k);
        assert forall|j: int| 0 <= j <= k implies states[k].peak() >= #[trigger] states[j].in_flight() by {
            assert(in_flights[j] == states[j].in_flight());
        }
        let j = choose|j: int| 0 <= j <= k && peaks[k] == #[trigger] in_flights[j];
        assert(states[k].peak() == states[j].in_flight());
    }
}

/// Over any run of operations on a download engine that starts idle, the
/// peak at each point is the largest number of requests that were in flight
/// at once up to that point.
pub proof fn lemma_download_peak_is_most_in_flight(states: Seq<ParallelDownloadEngine>)
    requires
        states.len() > 0,
        states[0].peak() == 0,
        states[0].in_flight() == 0,
        forall|k: int|
            0 <= k < states.len() - 1 ==> #[trigger] peak_tracks(
                states[k].peak(),
                states[k + 1].peak(),
                states[k + 1].in_flight(),
            ),
    ensures
        forall|k: int, j: int|
            0 <= j <= k < states.len() ==> #[trigger] states[k].peak() >= #[trigger] states[j].in_flight(),
        forall|k: int|
            0 <= k < states.len() ==> exists|j: int|
                0 <= j <= k && #[trigger] states[k].peak() == #[trigger] states[j].in_flight(),
{
    let peaks = Seq::new(states.len(), |k: int| states[k].peak());
    let in_flights = Seq::new(states.len(), |k: int| states[k].in_flight());
    assert forall|i: int| 0 <= i < peaks.len() - 1 implies #[trigger] peak_tracks(
        peaks[i],
        peaks[i + 1],
        in_flights[i + 1],
    ) by {
        assert(peak_tracks(states[i].peak(), states[i + 1].peak(), states[i + 1].in_flight()));
    }
    assert forall|k: int| #![trigger states[k]] 0 <= k < states.len() implies {
        &&& forall|j: int| 0 <= j <= k ==> states[k].peak() >= #[trigger] states[j].in_flight()
        &&& exists|j: int| 0 <= j <= k && states[k].peak() == #[trigger] states[j].in_flight()
    } by {
        lemma_running_peak(peaks, in_flights, k);
        assert forall|j: int| 0 <= j <= k implies states[k].peak() >= #[trigger] states[j].in_flight() by {
            assert(in_flights[j] == states[j].in_flight());
        }
        let j = choose|j: int| 0 <= j <= k && peaks[k] == #[trigger] in_flights[j];
        assert(states[k].peak() == states[j].in_flight());
    }
}

/// How many of the first `k` steps are claims.
pub open spec fn claims_before<A>(steps: Seq<Option<A>>, k: int) -> nat
    decreases k,
{
    if k <= 0 {
        0
    } else {
        claims_before(steps, k - 1) + if steps[k - 1] is Some {
            1nat
        } else {
            0nat
        }
    }
}

proof fn lemma_claims_before_grow<A>(steps: Seq<Option<A>>, k: int, l: int)
    requires
        0 <= k <= l <= steps.len(),
    ensures
        claims_before(steps, k) <= claims_before(steps, l),
        k < l && steps[k] is Some ==> claims_before(steps, k) < claims_before(steps, l),
    decreases l - k,
{
    if k < l {
        lemma_claims_before_grow(steps, k, l - 1);
    }
}

/// Some claim step is the claim with `count` claims before it, once more
/// claims than `count` were made.
proof fn lemma_claim_with_count<A>(steps: Seq<Option<A>>, count: nat, m: int) -> (k: int)
    requires
        0 <= m <= steps.len(),
        claims_before(steps, m) > count,
    ensures
        0 <= k < m,
        steps[k] is Some,
        claims_before(steps, k) == count,
    decreases m,
{
    if claims_before(steps, m - 1) > count {
        lemma_claim_with_count(steps, count, m - 1)
    } else {
        m - 1
    }
}

/// A schedule counter that starts at zero, moves on by one at each claim
/// until it reaches `total`, and stays put otherwise, counts the claims.
proof fn lemma_schedule_counts_claims<A>(nexts: Seq<int>, steps: Seq<Option<A>>, total: int)
    requires
        nexts.len() == steps.len() + 1,
        nexts[0] == 0,
        total >= 0,
        forall|k: int|
            0 <= k < steps.len() ==> {
                &&& #[trigger] steps[k] is Some && nexts[k] < total ==> nexts[k + 1] == nexts[k] + 1
                &&& steps[k] is Some && nexts[k] >= total ==> nexts[k + 1] == nexts[k]
                &&& steps[k] is None ==> nexts[k + 1] == nexts[k]
            },
    ensures
        forall|k: int|
            0 <= k < nexts.len() ==> #[trigger] nexts[k] == if claims_before(steps, k) < total {
                claims_before(steps, k) as int
            } else {
                total
            },
{
    assert forall|k: int| 0 <= k < nexts.len() implies #[trigger] nexts[k] == if claims_before(
        steps,
        k,
    ) < total {
        claims_before(steps, k) as int
    } else {
        total
    } by {
        lemma_schedule_prefix(nexts, steps, total, k);
    }
}

proof fn lemma_schedule_prefix<A>(nexts: Seq<int>, steps: Seq<Option<A>>, total: int, k: int)
    requires
        nexts.len() == steps.len() + 1,
        nexts[0] == 0,
        total >= 0,
        forall|j: int|
            0 <= j < steps.len() ==> {
                &&& #[trigger] steps[j] is Some && nexts[j] < total ==> nexts[j + 1] == nexts[j] + 1
                &&& steps[j] is Some && nexts[j] >= total ==> nexts[j + 1] == nexts[j]
                &&& steps[j] is None ==> nexts[j + 1] == nexts[j]
            },
        0 <= k < nexts.len(),
    ensures
        nexts[k] == if claims_before(steps, k) < total {
            claims_before(steps, k) as int
        } else {
            total
        },
    decreases k,
{
    if k > 0 {
        lemma_schedule_prefix(nexts, steps, total, k - 1);
        assert(steps[k - 1] is Some || steps[k - 1] is None);
    }
}

/// The slot that a claim step handed out, if any.
pub open spec fn handed_slot(step: Option<Option<PartSlot>>) -> Option<PartSlot> {
    match step {
        Some(Some(slot)) => Some(slot),
        _ => None,
    }
}

/// The request that a claim step handed out, if any.
pub open spec fn handed_request(
    step: Option<Option<Result<DownloadRequest, TransferRuntimeError>>>,
) -> Option<DownloadRequest> {
    match step {
        Some(Some(Ok(request))) => Some(request),
        _ => None,
    }
}

/// Whether some claim step handed out `slot`.
pub open spec fn slot_handed_out(steps: Seq<Option<Option<PartSlot>>>, slot: PartSlot) -> bool {
    exists|k: int| 0 <= k < steps.len() && #[trigger] steps[k] == Some(Some(slot))
}

/// Whether some claim step handed out what a download engine owes for part
/// `index`.
pub open spec fn request_handed_out(
    steps: Seq<Option<Option<Result<DownloadRequest, TransferRuntimeError>>>>,
    plan: TransferPlan,
    total_bytes: u64,
    index: int,
) -> bool {
    exists|k: int|
        0 <= k < steps.len() && #[trigger] steps[k] is Some && download_claim_matches(
            plan,
            total_bytes,
            index,
            steps[k]->Some_0,
        )
}

/// Whether `step` is an operation on an upload engine: a claim that handed
/// out `Some(slot)`'s slot, or another step (`None`).
pub open spec fn upload_transition(
    before: ParallelUploadEngine,
    after: ParallelUploadEngine,
    step: Option<Option<PartSlot>>,
) -> bool {
    match step {
        Some(slot) => upload_claim_step(before, after, slot),
        None => upload_schedule_kept(before, after),
    }
}

/// Across any run of operations on an upload engine that starts with its
/// schedule at the first part (as `new` and `begin` leave it), the claims hand
/// out the parts in index order, each part exactly once, with its exact offset
/// and length, and nothing once all parts were handed out.
pub proof fn lemma_upload_claims_hand_out_each_part_once(
    states: Seq<ParallelUploadEngine>,
    steps: Seq<Option<Option<PartSlot>>>,
)
    requires
        states.len() == steps.len() + 1,
        states[0].next_part() == 0,
        forall|k: int|
            0 <= k < steps.len() ==> #[trigger] upload_transition(states[k], states[k + 1], steps[k]),
    ensures
        ({
            let plan = states[0].plan();
            let total = states[0].total_bytes();
            let n = plan.total_parts as int;
            &&& forall|k: int|
                0 <= k < steps.len() && #[trigger] steps[k] is Some ==> if claims_before(steps, k) < n {
                    steps[k] == Some(Some(slot_for(plan, total, claims_before(steps, k) as int)))
                } else {
                    steps[k] == Some(None::<PartSlot>)
                }
            &&& forall|k: int, l: int|
                0 <= k < l < steps.len() && #[trigger] handed_slot(steps[k]) is Some
                    && #[trigger] handed_slot(steps[l]) is Some ==> handed_slot(steps[k])->Some_0.index
                    < handed_slot(steps[l])->Some_0.index
            &&& forall|i: int|
                0 <= i < n && i < claims_before(steps, steps.len() as int)
                    ==> #[trigger] slot_handed_out(steps, slot_for(plan, total, i))
        }),
{
    let plan = states[0].plan();
    let total = states[0].total_bytes();
    let n = plan.total_parts as int;
    assert forall|k: int| 0 <= k < states.len() implies #[trigger] states[k].plan() == plan
        && states[k].total_bytes() == total by {
        lemma_upload_trace_keeps_plan(states, steps, k);
    }
    let nexts = Seq::new(states.len(), |k: int| states[k].next_part() as int);
    assert forall|k: int| 0 <= k < steps.len() implies {
        &&& #[trigger] steps[k] is Some && nexts[k] < n ==> nexts[k + 1] == nexts[k] + 1
        &&& steps[k] is Some && nexts[k] >= n ==> nexts[k + 1] == nexts[k]
        &&& steps[k] is None ==> nexts[k + 1] == nexts[k]
    } by {
        assert(upload_transition(states[k], states[k + 1], steps[k]));
        assert(states[k].plan() == plan);
    }
    lemma_schedule_counts_claims(nexts, steps, n);
    assert forall|k: int|
        0 <= k < steps.len() && #[trigger] steps[k] is Some implies if claims_before(steps, k) < n {
        steps[k] == Some(Some(slot_for(plan, total, claims_before(steps, k) as int)))
    } else {
        steps[k] == Some(None::<PartSlot>)
    } by {
        assert(upload_transition(states[k], states[k + 1], steps[k]));
        assert(nexts[k] == states[k].next_part());
        assert(states[k].plan() == plan && states[k].total_bytes() == total);
    }
    assert forall|k: int, l: int|
        0 <= k < l < steps.len() && #[trigger] handed_slot(steps[k]) is Some
            && #[trigger] handed_slot(steps[l]) is Some implies handed_slot(steps[k])->Some_0.index
            < handed_slot(steps[l])->Some_0.index by {
        lemma_claims_before_grow(steps, k, l);
        lemma_claims_before_grow(steps, k + 1, l);
        assert(steps[k] is Some && steps[l] is Some);
        assert(claims_before(steps, k) < n);
        assert(claims_before(steps, l) < n);
    }
    assert forall|i: int|
        0 <= i < n && i < claims_before(steps, steps.len() as int) implies #[trigger] slot_handed_out(
        steps,
        slot_for(plan, total, i),
    ) by {
        let k = lemma_claim_with_count(steps, i as nat, steps.len() as int);
        assert(steps[k] is Some);
        assert(steps[k] == Some(Some(slot_for(plan, total, i))));
    }
}

proof fn lemma_upload_trace_keeps_plan(
    states: Seq<ParallelUploadEngine>,
    steps: Seq<Option<Option<PartSlot>>>,
    k: int,
)
    requires
        states.len() == steps.len() + 1,
        forall|j: int|
            0 <= j < steps.len() ==> #[trigger] upload_transition(states[j], states[j + 1], steps[j]),
        0 <= k < states.len(),
    ensures
        states[k].plan() == states[0].plan(),
        states[k].total_bytes() == states[0].total_bytes(),
    decreases k,
{
    if k > 0 {
        lemma_upload_trace_keeps_plan(states, steps, k - 1);
        let j = k - 1;
        assert(upload_transition(states[j], states[j + 1], steps[j]));
    }
}

/// Whether `step` is an operation on a download engine: a claim that handed
/// out `Some(claimed)`'s value, or another step (`None`).
pub open spec fn download_transition(
    before: ParallelDownloadEngine,
    after: ParallelDownloadEngine,
    step: Option<Option<Result<DownloadRequest, TransferRuntimeError>>>,
) -> bool {
    match step {
        Some(claimed) => download_claim_step(before, after, claimed),
        None => download_schedule_kept(before, after),
    }
}

proof fn lemma_download_trace_keeps_plan(
    states: Seq<ParallelDownloadEngine>,
    steps: Seq<Option<Option<Result<DownloadRequest, TransferRuntimeError>>>>,
    k: int,
)
    requires
        states.len() == steps.len() + 1,
        forall|j: int|
            0 <= j < steps.len() ==> #[trigger] download_transition(states[j], states[j + 1], steps[j]),
        0 <= k < states.len(),
    ensures
        states[k].plan() == states[0].plan(),
        states[k].total_bytes() == states[0].total_bytes(),
    decreases k,
{
    if k > 0 {
        lemma_download_trace_keeps_plan(states, steps, k - 1);
        let j = k - 1;
        assert(download_transition(states[j], states[j + 1], steps[j]));
    }
}

/// Across any run of operations on a download engine that starts with its
/// schedule at the first part, the claims hand out the parts in index order,
/// each part exactly once, with the exact request (or the rule it breaks), and
/// nothing once all parts were handed out.
pub proof fn lemma_download_claims_hand_out_each_part_once(
    states: Seq<ParallelDownloadEngine>,
    steps: Seq<Option<Option<Result<DownloadRequest, TransferRuntimeError>>>>,
)
    requires
        states.len() == steps.len() + 1,
        states[0].next_part() == 0,
        forall|k: int|
            0 <= k < steps.len() ==> #[trigger] download_transition(states[k], states[k + 1], steps[k]),
    ensures
        ({
            let plan = states[0].plan();
            let total = states[0].total_bytes();
            let n = plan.total_parts as int;
            &&& forall|k: int|
                0 <= k < steps.len() && #[trigger] steps[k] is Some ==> if claims_before(steps, k) < n {
                    download_claim_matches(plan, total, claims_before(steps, k) as int, steps[k]->Some_0)
                } else {
                    steps[k]->Some_0 is None
                }
            &&& forall|k: int, l: int|
                0 <= k < l < steps.len() && #[trigger] handed_request(steps[k]) is Some
                    && #[trigger] handed_request(steps[l]) is Some ==> handed_request(
                    steps[k],
                )->Some_0.part_index < handed_request(steps[l])->Some_0.part_index
            &&& forall|i: int|
                0 <= i < n && i < claims_before(steps, steps.len() as int)
                    ==> #[trigger] request_handed_out(steps, plan, total, i)
        }),
{
    let plan = states[0].plan();
    let total = states[0].total_bytes();
    let n = plan.total_parts as int;
    assert forall|k: int| 0 <= k < states.len() implies #[trigger] states[k].plan() == plan
        && states[k].total_bytes() == total by {
        lemma_download_trace_keeps_plan(states, steps, k);
    }
    let nexts = Seq::new(states.len(), |k: int| states[k].next_part() as int);
    assert forall|k: int| 0 <= k < steps.len() implies {
        &&& #[trigger] steps[k] is Some && nexts[k] < n ==> nexts[k + 1] == nexts[k] + 1
        &&& steps[k] is Some && nexts[k] >= n ==> nexts[k + 1] == nexts[k]
        &&& steps[k] is None ==> nexts[k + 1] == nexts[k]
    } by {
        assert(download_transition(states[k], states[k + 1], steps[k]));
        assert(states[k].plan() == plan);
    }
    lemma_schedule_counts_claims(nexts, steps, n);
    assert forall|k: int|
        0 <= k < steps.len() && #[trigger] steps[k] is Some implies if claims_before(steps, k) < n {
        download_claim_matches(plan, total, claims_before(steps, k) as int, steps[k]->Some_0)
    } else {
        steps[k]->Some_0 is None
    } by {
        assert(download_transition(states[k], states[k + 1], steps[k]));
        assert(nexts[k] == states[k].next_part());
        assert(states[k].plan() == plan && states[k].total_bytes() == total);
    }
    assert forall|k: int, l: int|
        0 <= k < l < steps.len() && #[trigger] handed_request(steps[k]) is Some
            && #[trigger] handed_request(steps[l]) is Some implies handed_request(
            steps[k],
        )->Some_0.part_index < handed_request(steps[l])->Some_0.part_index by {
        lemma_claims_before_grow(steps, k, l);
        lemma_claims_before_grow(steps, k + 1, l);
        assert(steps[k] is Some && steps[l] is Some);
        assert(claims_before(steps, k) < n);
        assert(claims_before(steps, l) < n);
    }
    assert forall|i: int|
        0 <= i < n && i < claims_before(steps, steps.len() as int) implies #[trigger] request_handed_out(
        steps,
        plan,
        total,
        i,
    ) by {
        let k = lemma_claim_with_count(steps, i as nat, steps.len() as int);
        assert(steps[k] is Some);
        assert(download_claim_matches(plan, total, i, steps[k]->Some_0));
    }
}

} // verus!
