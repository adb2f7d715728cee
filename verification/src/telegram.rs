//! Telegram's file transfer rules: part sizes, part limits and the shape of
//! precise download requests.

use vstd::prelude::*;

verus! {

pub const KIB: u64 = 1024;

pub const MIB: u64 = 1024 * KIB;

/// Uploads above this size must use the big-file API.
pub const SMALL_UPLOAD_CUTOFF: u64 = 10 * MIB;

pub const RECOMMENDED_UPLOAD_CHUNK_SIZE: usize = 512 * 1024;

pub const MAX_DOWNLOAD_CHUNK_SIZE: usize = 1024 * 1024;

pub const RECOMMENDED_DOWNLOAD_CHUNK_SIZE: usize = 1024 * 1024;

pub const PRECISE_DOWNLOAD_ALIGNMENT: usize = 1024;

/// Part limit assumed when the server sent no `appConfig` hint.
pub const LEGACY_DEFAULT_MAX_UPLOAD_PARTS: usize = 4_000;

/// Alignment of offsets and limits of ordinary (not precise) download requests.
pub const STANDARD_DOWNLOAD_ALIGNMENT: usize = 4 * 1024;

/// Queue hints choose between the small and the large queue at this size.
pub const SMALL_QUEUE_CUTOFF: u64 = 64 * MIB;

#[derive(Debug, Clone, Copy, PartialEq, Eq, Structural)]
pub enum AccountTier {
    Free,
    Premium,
}

impl Default for AccountTier {
    fn default() -> (tier: Self)
        ensures
            tier == AccountTier::Free,
    {
        AccountTier::Free
    }
}

/// Limits that the server may announce through `appConfig`.
#[derive(Debug, Clone, Copy, PartialEq, Eq, Structural)]
pub struct AppConfigHints {
    pub upload_max_fileparts_default: Option<usize>,
    pub upload_max_fileparts_premium: Option<usize>,
    pub small_queue_max_active_operations_count: Option<usize>,
    pub large_queue_max_active_operations_count: Option<usize>,
}

impl Default for AppConfigHints {
    fn default() -> (hints: Self)
        ensures
            hints.upload_max_fileparts_default is None,
            hints.upload_max_fileparts_premium is None,
            hints.small_queue_max_active_operations_count is None,
            hints.large_queue_max_active_operations_count is None,
    {
        AppConfigHints {
            upload_max_fileparts_default: None,
            upload_max_fileparts_premium: None,
            small_queue_max_active_operations_count: None,
            large_queue_max_active_operations_count: None,
        }
    }
}

impl AppConfigHints {
    /// The number of upload parts an account of `tier` may send: the tier's own
    /// hint, for premium accounts the default hint next, else the legacy limit.
    pub open spec fn part_limit(self, tier: AccountTier) -> usize {
        match tier {
            AccountTier::Free => match self.upload_max_fileparts_default {
                Some(limit) => limit,
                None => LEGACY_DEFAULT_MAX_UPLOAD_PARTS,
            },
            AccountTier::Premium => match self.upload_max_fileparts_premium {
                Some(limit) => limit,
                None => match self.upload_max_fileparts_default {
                    Some(limit) => limit,
                    None => LEGACY_DEFAULT_MAX_UPLOAD_PARTS,
                },
            },
        }
    }

    /// The queue hint that applies to a file of `total_bytes`.
    pub open spec fn queue_limit(self, total_bytes: u64) -> Option<usize> {
        if total_bytes <= SMALL_QUEUE_CUTOFF {
            self.small_queue_max_active_operations_count
        } else {
            self.large_queue_max_active_operations_count
        }
    }

    pub fn upload_part_limit(&self, tier: AccountTier) -> (limit: usize)
        ensures
            limit == self.part_limit(tier),
            tier == AccountTier::Free ==> (self.upload_max_fileparts_default matches Some(l) ==> limit
                == l),
            tier == AccountTier::Free ==> (self.upload_max_fileparts_default is None ==> limit
                == LEGACY_DEFAULT_MAX_UPLOAD_PARTS),
            tier == AccountTier::Premium ==> (self.upload_max_fileparts_premium matches Some(l)
                ==> limit == l),
            tier == AccountTier::Premium ==> (self.upload_max_fileparts_premium is None
                ==> (self.upload_max_fileparts_default matches Some(l) ==> limit == l)),
            tier == AccountTier::Premium ==> (self.upload_max_fileparts_premium is None
                ==> (self.upload_max_fileparts_default is None ==> limit
                == LEGACY_DEFAULT_MAX_UPLOAD_PARTS)),
    {
        match tier {
            AccountTier::Free => match self.upload_max_fileparts_default {
                Some(limit) => limit,
                None => LEGACY_DEFAULT_MAX_UPLOAD_PARTS,
            },
            AccountTier::Premium => match self.upload_max_fileparts_premium {
                Some(limit) => limit,
                None => match self.upload_max_fileparts_default {
                    Some(limit) => limit,
                    None => LEGACY_DEFAULT_MAX_UPLOAD_PARTS,
                },
            },
        }
    }

    pub fn queue_limit_for(&self, total_bytes: u64) -> (limit: Option<usize>)
        ensures
            limit == self.queue_limit(total_bytes),
    {
        if total_bytes <= SMALL_QUEUE_CUTOFF {
            self.small_queue_max_active_operations_count
        } else {
            self.large_queue_max_active_operations_count
        }
    }
}

#[derive(Debug, Clone, PartialEq, Eq, Structural)]
pub enum TelegramRuleError {
    ZeroPartSize,
    BadUploadAlignment { part_size: usize },
    BadUploadGranularity { part_size: usize },
    TooManyUploadParts { total_parts: usize, part_limit: usize },
    ZeroDownloadLimit,
    DownloadLimitTooLarge { limit: usize, max_limit: usize },
    BadDownloadOffsetAlignment { offset: u64, alignment: usize },
    BadDownloadLimitAlignment { limit: usize, alignment: usize },
    PreciseWindowCrossed { offset: u64, limit: usize },
}

/// The smallest number of `b`-sized pieces that hold `a` units.
pub open spec fn ceil_div(a: int, b: int) -> int {
    if a % b == 0 {
        a / b
    } else {
        a / b + 1
    }
}

/// The first rule that an upload part size breaks, if any.
pub open spec fn part_size_verdict(part_size: usize) -> Result<(), TelegramRuleError> {
    if part_size == 0 {
        Err(TelegramRuleError::ZeroPartSize)
    } else if part_size % 1024 != 0 {
        Err(TelegramRuleError::BadUploadAlignment { part_size })
    } else if RECOMMENDED_UPLOAD_CHUNK_SIZE % part_size != 0 {
        Err(TelegramRuleError::BadUploadGranularity { part_size })
    } else {
        Ok(())
    }
}

/// The part count of an upload of `total_bytes` in parts of `part_size`, or the
/// first rule it breaks.
pub open spec fn upload_verdict(total_bytes: u64, part_size: usize, part_limit: usize) -> Result<
    usize,
    TelegramRuleError,
> {
    match part_size_verdict(part_size) {
        Err(e) => Err(e),
        Ok(_) => {
            let total_parts = ceil_div(total_bytes as int, part_size as int) as usize;
            if total_parts > part_limit {
                Err(TelegramRuleError::TooManyUploadParts { total_parts, part_limit })
            } else {
                Ok(total_parts)
            }
        },
    }
}

/// The alignment that offsets and limits of a download request must keep.
pub open spec fn download_alignment(precise: bool) -> usize {
    if precise {
        PRECISE_DOWNLOAD_ALIGNMENT
    } else {
        STANDARD_DOWNLOAD_ALIGNMENT
    }
}

/// Whether the request `[offset, offset + limit)` stays inside one 1 MiB window.
pub open spec fn within_one_window(offset: u64, limit: usize) -> bool {
    offset as int / MAX_DOWNLOAD_CHUNK_SIZE as int == (offset as int + limit as int - 1)
        / MAX_DOWNLOAD_CHUNK_SIZE as int
}

/// The first rule that a download request breaks, if any.
pub open spec fn download_verdict(offset: u64, limit: usize, precise: bool) -> Result<
    (),
    TelegramRuleError,
> {
    let alignment = download_alignment(precise);
    if limit == 0 {
        Err(TelegramRuleError::ZeroDownloadLimit)
    } else if limit > MAX_DOWNLOAD_CHUNK_SIZE {
        Err(TelegramRuleError::DownloadLimitTooLarge { limit, max_limit: MAX_DOWNLOAD_CHUNK_SIZE })
    } else if offset % (alignment as u64) != 0 {
        Err(TelegramRuleError::BadDownloadOffsetAlignment { offset, alignment })
    } else if limit % alignment != 0 {
        Err(TelegramRuleError::BadDownloadLimitAlignment { limit, alignment })
    } else if precise && !within_one_window(offset, limit) {
        Err(TelegramRuleError::PreciseWindowCrossed { offset, limit })
    } else {
        Ok(())
    }
}

/// Whether the window check of a precise request is reached; there the end of
/// the request is computed in `u64`.
pub open spec fn reaches_window_check(offset: u64, limit: usize, precise: bool) -> bool {
    &&& precise
    &&& 0 < limit <= MAX_DOWNLOAD_CHUNK_SIZE
    &&& offset % (PRECISE_DOWNLOAD_ALIGNMENT as u64) == 0
    &&& limit % PRECISE_DOWNLOAD_ALIGNMENT == 0
}

pub fn validate_upload_part_size(part_size: usize) -> (verdict: Result<(), TelegramRuleError>)
    ensures
        verdict == part_size_verdict(part_size),
{
    if part_size == 0 {
        return Err(TelegramRuleError::ZeroPartSize);
    }
    if part_size % 1024 != 0 {
        return Err(TelegramRuleError::BadUploadAlignment { part_size });
    }
    if RECOMMENDED_UPLOAD_CHUNK_SIZE % part_size != 0 {
        return Err(TelegramRuleError::BadUploadGranularity { part_size });
    }
    Ok(())
}

pub fn validate_upload(total_bytes: u64, part_size: usize, part_limit: usize) -> (verdict: Result<
    usize,
    TelegramRuleError,
>)
    ensures
        verdict == upload_verdict(total_bytes, part_size, part_limit),
{
    validate_upload_part_size(part_size)?;
    let divisor = part_size as u64;
    assert(total_bytes / divisor < u64::MAX) by (nonlinear_arith)
        requires
            divisor >= 1024,
    ;
    let whole = total_bytes / divisor;
    let total_parts_wide = if total_bytes % divisor == 0 {
        whole
    } else {
        whole + 1
    };
    let total_parts = total_parts_wide as usize;
    if total_parts > part_limit {
        return Err(TelegramRuleError::TooManyUploadParts { total_parts, part_limit });
    }
    Ok(total_parts)
}

pub fn validate_download_request(offset: u64, limit: usize, precise: bool) -> (verdict: Result<
    (),
    TelegramRuleError,
>)
    requires
        reaches_window_check(offset, limit, precise) ==> offset + limit <= u64::MAX,
    ensures
        verdict == download_verdict(offset, limit, precise),
        verdict is Ok ==> limit as int % (if precise { 1024int } else { 4096int }) == 0,
        verdict is Ok ==> offset as int % (if precise { 1024int } else { 4096int }) == 0,
        verdict is Ok <==> {
            &&& 0 < limit <= 0x100000
            &&& offset as int % (if precise { 1024int } else { 4096int }) == 0
            &&& limit as int % (if precise { 1024int } else { 4096int }) == 0
            &&& precise ==> offset as int / 0x100000 == (offset as int + limit as int - 1) / 0x100000
        },
{
    if limit == 0 {
        return Err(TelegramRuleError::ZeroDownloadLimit);
    }
    if limit > MAX_DOWNLOAD_CHUNK_SIZE {
        return Err(
            TelegramRuleError::DownloadLimitTooLarge { limit, max_limit: MAX_DOWNLOAD_CHUNK_SIZE },
        );
    }
    let alignment = if precise {
        PRECISE_DOWNLOAD_ALIGNMENT
    } else {
        STANDARD_DOWNLOAD_ALIGNMENT
    };
    if offset % (alignment as u64) != 0 {
        return Err(TelegramRuleError::BadDownloadOffsetAlignment { offset, alignment });
    }
    if limit % alignment != 0 {
        return Err(TelegramRuleError::BadDownloadLimitAlignment { limit, alignment });
    }
    proof {
        lemma_download_rules(offset, limit, precise);
    }
    if precise {
        let chunk_window = MAX_DOWNLOAD_CHUNK_SIZE as u64;
        let end = offset + limit as u64 - 1;
        if offset / chunk_window != end / chunk_window {
            return Err(TelegramRuleError::PreciseWindowCrossed { offset, limit });
        }
    }
    Ok(())
}

/// A download request is accepted exactly when its limit is positive and at
/// most 1 MiB, its offset and limit are multiples of the alignment (1 KiB for
/// precise requests, 4 KiB otherwise), and a precise request stays inside one
/// 1 MiB window. A refusal names the first rule broken, in that order; in
/// particular a limit off the alignment is refused as such once the offset is
/// aligned, precise or not.
pub proof fn lemma_download_rules(offset: u64, limit: usize, precise: bool)
    ensures
        ({
            let a: int = if precise { 1024 } else { 4096 };
            let in_size = 0 < limit <= 0x100000;
            &&& download_verdict(offset, limit, precise) is Ok <==> {
                &&& in_size
                &&& offset as int % a == 0
                &&& limit as int % a == 0
                &&& precise ==> offset as int / 0x100000 == (offset as int + limit as int - 1) / 0x100000
            }
            &&& limit == 0 ==> download_verdict(offset, limit, precise) == Err::<(), TelegramRuleError>(
                TelegramRuleError::ZeroDownloadLimit,
            )
            &&& limit > 0x100000 ==> download_verdict(offset, limit, precise) == Err::<
                (),
                TelegramRuleError,
            >(TelegramRuleError::DownloadLimitTooLarge { limit, max_limit: 0x100000 })
            &&& in_size && offset as int % a != 0 ==> download_verdict(offset, limit, precise) == Err::<
                (),
                TelegramRuleError,
            >(TelegramRuleError::BadDownloadOffsetAlignment { offset, alignment: a as usize })
            &&& in_size && offset as int % a == 0 && limit as int % a != 0 ==> download_verdict(
                offset,
                limit,
                precise,
            ) == Err::<(), TelegramRuleError>(
                TelegramRuleError::BadDownloadLimitAlignment { limit, alignment: a as usize },
            )
            &&& precise && in_size && offset as int % a == 0 && limit as int % a == 0 && offset as int
                / 0x100000 != (offset as int + limit as int - 1) / 0x100000 ==> download_verdict(offset, limit, precise)
                == Err::<(), TelegramRuleError>(
                TelegramRuleError::PreciseWindowCrossed { offset, limit },
            )
        }),
{
}

/// A free account's part limit is its own hint, else the legacy default; the
/// premium hint never changes it. A premium account's limit is the premium
/// hint, else what a free account with the same hints gets.
pub proof fn lemma_part_limits(hints: AppConfigHints, other: AppConfigHints)
    ensures
        hints.part_limit(AccountTier::Free) == match hints.upload_max_fileparts_default {
            Some(limit) => limit,
            None => 4000usize,
        },
        hints.upload_max_fileparts_default == other.upload_max_fileparts_default ==> hints.part_limit(
            AccountTier::Free,
        ) == other.part_limit(AccountTier::Free),
        hints.upload_max_fileparts_premium matches Some(limit) ==> hints.part_limit(
            AccountTier::Premium,
        ) == limit,
        hints.upload_max_fileparts_premium is None ==> hints.part_limit(AccountTier::Premium)
            == hints.part_limit(AccountTier::Free),
{
}

/// The upload part sizes that Telegram accepts are exactly 1, 2, 4, ... and
/// 512 KiB.
pub proof fn lemma_valid_part_sizes(part_size: usize)
    ensures
        part_size_verdict(part_size) is Ok <==> (part_size == 1024 || part_size == 2048
            || part_size == 4096 || part_size == 8192 || part_size == 16384 || part_size == 32768
            || part_size == 65536 || part_size == 131072 || part_size == 262144 || part_size
            == 524288),
{
    let p = part_size;
    assert(p > 0 && p % 1024 == 0 && 524288usize % p == 0 ==> (p == 1024 || p == 2048 || p
        == 4096 || p == 8192 || p == 16384 || p == 32768 || p == 65536 || p == 131072 || p
        == 262144 || p == 524288)) by (bit_vector);
}

} // verus!
