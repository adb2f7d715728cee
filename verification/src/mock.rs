//! In-memory sources, backends and sinks that stand in for Telegram and the
//! local disk, for simulations and tests.

use vstd::prelude::*;

use crate::runtime::{DownloadRequest, TransferRuntimeError, UploadPart};

verus! {

/// `a + b`, or `usize::MAX` where that overflows.
pub open spec fn saturating_sum(a: usize, b: usize) -> usize {
    if a + b > usize::MAX {
        usize::MAX
    } else {
        (a + b) as usize
    }
}

/// The bytes `[offset, offset + len)` of `data`, where the whole range lies
/// inside it; the offset is taken as a `usize`, and the end saturates.
pub open spec fn window(data: Seq<u8>, offset: u64, len: usize) -> Option<Seq<u8>> {
    let start = offset as usize;
    let end = saturating_sum(start, len);
    if end <= data.len() {
        Some(data.subrange(start as int, end as int))
    } else {
        None
    }
}

/// Whether `outcome` is the window of `data`, or the out-of-bounds error with
/// `message` where there is none.
pub open spec fn window_read(
    outcome: Result<Vec<u8>, TransferRuntimeError>,
    data: Seq<u8>,
    offset: u64,
    len: usize,
    message: Seq<char>,
) -> bool {
    match window(data, offset, len) {
        Some(bytes) => outcome matches Ok(read) && read@ == bytes,
        None => outcome matches Err(TransferRuntimeError::Message(m)) && m@ == message,
    }
}

/// `data` with `bytes` written over it from `start`.
pub open spec fn overwrite(data: Seq<u8>, start: int, bytes: Seq<u8>) -> Seq<u8> {
    data.subrange(0, start) + bytes + data.subrange(start + bytes.len(), data.len() as int)
}

/// Whether `len` bytes written at `offset` stay inside `data`.
pub open spec fn fits_inside(data: Seq<u8>, offset: u64, len: nat) -> bool {
    offset as usize + len <= data.len()
}

/// Copies `[offset, offset + len)` out of `data` when the range lies inside.
fn copy_window(data: &Vec<u8>, offset: u64, len: usize) -> (copied: Option<Vec<u8>>)
    ensures
        match window(data@, offset, len) {
            Some(bytes) => copied matches Some(v) && v@ == bytes,
            None => copied is None,
        },
{
    let start = offset as usize;
    let end = start.saturating_add(len);
    if end > data.len() {
        return None;
    }
    Some(vstd::slice::slice_to_vec(vstd::slice::slice_subrange(data.as_slice(), start, end)))
}

/// A file to upload, held in memory.
#[derive(Debug, Clone)]
pub struct MemoryUploadSource {
    bytes: Vec<u8>,
}

impl View for MemoryUploadSource {
    type V = Seq<u8>;

    closed spec fn view(&self) -> Seq<u8> {
        self.bytes@
    }
}

impl MemoryUploadSource {
    pub fn new(bytes: Vec<u8>) -> (source: Self)
        ensures
            source@ == bytes@,
    {
        MemoryUploadSource { bytes }
    }

    /// The bytes `[offset, offset + len)` of the file, or an error where the
    /// range runs past its end.
    pub fn read_at(&self, offset: u64, len: usize) -> (outcome: Result<Vec<u8>, TransferRuntimeError>)
        ensures
            window_read(outcome, self@, offset, len, "upload source out of bounds"@),
    {
        match copy_window(&self.bytes, offset, len) {
            Some(bytes) => Ok(bytes),
            None => Err(TransferRuntimeError::Message("upload source out of bounds".to_owned())),
        }
    }
}

/// An upload backend that keeps every part it receives.
#[derive(Debug)]
pub struct RecordingUploadBackend {
    parts: Vec<UploadPart>,
}

impl Default for RecordingUploadBackend {
    fn default() -> (backend: Self)
        ensures
            backend@ == Seq::<UploadPart>::empty(),
    {
        RecordingUploadBackend { parts: Vec::new() }
    }
}

impl View for RecordingUploadBackend {
    type V = Seq<UploadPart>;

    closed spec fn view(&self) -> Seq<UploadPart> {
        self.parts@
    }
}

/// Whether part `i` comes before part `j` when parts are ordered by offset,
/// ties kept in arrival order.
pub open spec fn arrives_before(parts: Seq<UploadPart>, i: int, j: int) -> bool {
    parts[i].offset < parts[j].offset || (parts[i].offset == parts[j].offset && i < j)
}

/// Whether `order` holds `index`.
pub open spec fn lists(order: Seq<usize>, index: int) -> bool {
    exists|k: int| 0 <= k < order.len() && #[trigger] order[k] == index
}

/// Whether `order` lists every index of `parts` once, ordered by offset with
/// ties in arrival order.
pub open spec fn is_offset_order(parts: Seq<UploadPart>, order: Seq<usize>) -> bool {
    &&& order.len() == parts.len()
    &&& forall|k: int| 0 <= k < order.len() ==> #[trigger] order[k] < parts.len()
    &&& forall|i: int| 0 <= i < parts.len() ==> #[trigger] lists(order, i)
    &&& forall|k: int, l: int|
        0 <= k < l < order.len() ==> arrives_before(parts, #[trigger] order[k] as int, #[trigger] order[l] as int)
}

/// The bytes of the parts listed in `order`, one after another.
pub open spec fn concat_in_order(parts: Seq<UploadPart>, order: Seq<usize>) -> Seq<u8>
    decreases order.len(),
{
    if order.len() == 0 {
        Seq::empty()
    } else {
        concat_in_order(parts, order.drop_last()) + parts[order.last() as int].bytes@
    }
}

/// No part comes before itself, and of two parts at most one comes first.
proof fn lemma_arrives_before_strict(parts: Seq<UploadPart>, a: int, b: int)
    ensures
        !arrives_before(parts, a, a),
        !(arrives_before(parts, a, b) && arrives_before(parts, b, a)),
{
}

proof fn lemma_offset_orders_agree_upto(
    parts: Seq<UploadPart>,
    first: Seq<usize>,
    second: Seq<usize>,
    k: int,
)
    requires
        is_offset_order(parts, first),
        is_offset_order(parts, second),
        0 <= k < first.len(),
    ensures
        forall|j: int| 0 <= j <= k ==> #[trigger] first[j] == second[j],
    decreases k,
{
    if k > 0 {
        lemma_offset_orders_agree_upto(parts, first, second, k - 1);
    }
    let a = first[k] as int;
    let b = second[k] as int;
    if a != b {
        assert(lists(second, a));
        let p = choose|p: int| 0 <= p < second.len() && #[trigger] second[p] == a;
        assert(lists(first, b));
        let q = choose|q: int| 0 <= q < first.len() && #[trigger] first[q] == b;
        lemma_arrives_before_strict(parts, a, b);
        lemma_arrives_before_strict(parts, a, a);
        lemma_arrives_before_strict(parts, b, b);
        if p < k {
            assert(first[p] == second[p]);
            assert(arrives_before(parts, first[p] as int, first[k] as int));
        } else if q < k {
            assert(first[q] == second[q]);
            assert(arrives_before(parts, second[q] as int, second[k] as int));
        } else {
            assert(p > k && q > k);
            assert(arrives_before(parts, second[k] as int, second[p] as int));
            assert(arrives_before(parts, first[k] as int, first[q] as int));
        }
    }
}

/// At most one order lists the parts by offset with ties in arrival order.
pub proof fn lemma_offset_order_unique(parts: Seq<UploadPart>, first: Seq<usize>, second: Seq<usize>)
    requires
        is_offset_order(parts, first),
        is_offset_order(parts, second),
    ensures
        first == second,
{
    if first.len() > 0 {
        lemma_offset_orders_agree_upto(parts, first, second, first.len() - 1);
    }
    assert(first =~= second);
}

/// The kept parts' bytes one after another, ordered by offset with ties in
/// arrival order.
pub open spec fn assembled_bytes(parts: Seq<UploadPart>) -> Seq<u8> {
    concat_in_order(parts, choose|order: Seq<usize>| is_offset_order(parts, order))
}

impl RecordingUploadBackend {
    /// Keeps `part`.
    pub fn upload_part(&mut self, part: UploadPart) -> (outcome: Result<(), TransferRuntimeError>)
        ensures
            final(self)@ == old(self)@.push(part),
            outcome is Ok,
    {
        self.parts.push(part);
        Ok(())
    }

    /// The indices of the kept parts, ordered by offset with ties in arrival
    /// order.
    fn offset_order(&self) -> (order: Vec<usize>)
        ensures
            is_offset_order(self@, order@),
    {
        let n = self.parts.len();
        let mut order: Vec<usize> = Vec::new();
        let mut i: usize = 0;
        while i < n
            invariant
                n == self.parts@.len(),
                i <= n,
                order@.len() == i,
                forall|k: int| 0 <= k < order@.len() ==> #[trigger] order@[k] < i,
                forall|j: int| 0 <= j < i ==> #[trigger] lists(order@, j),
                forall|k: int, l: int|
                    0 <= k < l < order@.len() ==> arrives_before(
                        self.parts@,
                        #[trigger] order@[k] as int,
                        #[trigger] order@[l] as int,
                    ),
            decreases n - i,
        {
            let key = self.parts[i].offset;
            let mut p: usize = 0;
            while p < order.len() && self.parts[order[p]].offset <= key
                invariant
                    n == self.parts@.len(),
                    i < n,
                    p <= order@.len(),
                    forall|k: int| 0 <= k < order@.len() ==> #[trigger] order@[k] < i,
                    forall|k: int| 0 <= k < p ==> self.parts@[#[trigger] order@[k] as int].offset <= key,
                    key == self.parts@[i as int].offset,
                decreases order@.len() - p,
            {
                p = p + 1;
            }
            proof {
                assert forall|k: int| p <= k < order@.len() implies self.parts@[#[trigger] order@[k] as int].offset
                    > key by {
                    if p < order@.len() {
                        if k > p {
                            assert(arrives_before(self.parts@, order@[p as int] as int, order@[k] as int));
                        }
                    }
                }
            }
            let ghost before = order@;
            order.insert(p, i);
            proof {
                assert forall|k: int, l: int|
                    0 <= k < l < order@.len() implies arrives_before(
                    self.parts@,
                    #[trigger] order@[k] as int,
                    #[trigger] order@[l] as int,
                ) by {
                    if l < p {
                        assert(order@[k] == before[k] && order@[l] == before[l]);
                    } else if l == p {
                        assert(order@[k] == before[k]);
                    } else if k == p {
                        assert(order@[l] == before[l - 1]);
                    } else if k < p {
                        assert(order@[k] == before[k] && order@[l] == before[l - 1]);
                    } else {
                        assert(order@[k] == before[k - 1] && order@[l] == before[l - 1]);
                    }
                }
                assert forall|j: int| 0 <= j < i + 1 implies #[trigger] lists(order@, j) by {
                    if j == i {
                        assert(order@[p as int] == i);
                    } else {
                        assert(lists(before, j));
                        let k = choose|k: int| 0 <= k < before.len() && #[trigger] before[k] == j;
                        if k < p {
                            assert(order@[k] == j);
                        } else {
                            assert(order@[k + 1] == j);
                        }
                    }
                }
                assert forall|k: int| 0 <= k < order@.len() implies #[trigger] order@[k] < i + 1 by {
                    if k < p {
                        assert(order@[k] == before[k]);
                    } else if k > p {
                        assert(order@[k] == before[k - 1]);
                    }
                }
            }
            i = i + 1;
        }
        order
    }

    /// The kept parts' bytes, one after another in order of offset (parts with
    /// the same offset in the order they arrived).
    pub fn assembled(&self) -> (bytes: Vec<u8>)
        ensures
            bytes@ == assembled_bytes(self@),
    {
        let order = self.offset_order();
        let mut bytes: Vec<u8> = Vec::new();
        let mut k: usize = 0;
        while k < order.len()
            invariant
                is_offset_order(self@, order@),
                k <= order@.len(),
                bytes@ == concat_in_order(self@, order@.take(k as int)),
            decreases order@.len() - k,
        {
            let part = &self.parts[order[k]];
            let ghost prefix = bytes@;
            let mut j: usize = 0;
            while j < part.bytes.len()
                invariant
                    j <= part.bytes@.len(),
                    bytes@ == prefix + part.bytes@.take(j as int),
                decreases part.bytes@.len() - j,
            {
                bytes.push(part.bytes[j]);
                proof {
                    assert(part.bytes@.take(j + 1) == part.bytes@.take(j as int).push(part.bytes@[j as int]));
                }
                j = j + 1;
            }
            proof {
                assert(part.bytes@.take(j as int) == part.bytes@);
                assert(order@.take(k + 1).drop_last() == order@.take(k as int));
            }
            k = k + 1;
        }
        proof {
            assert(order@.take(k as int) == order@);
            let chosen = choose|o: Seq<usize>| is_offset_order(self@, o);
            assert(is_offset_order(self@, order@));
            lemma_offset_order_unique(self@, order@, chosen);
        }
        bytes
    }
}

/// A download backend that answers from a file held in memory.
#[derive(Debug, Clone)]
pub struct MemoryDownloadBackend {
    bytes: Vec<u8>,
}

impl View for MemoryDownloadBackend {
    type V = Seq<u8>;

    closed spec fn view(&self) -> Seq<u8> {
        self.bytes@
    }
}

impl MemoryDownloadBackend {
    pub fn new(bytes: Vec<u8>) -> (backend: Self)
        ensures
            backend@ == bytes@,
    {
        MemoryDownloadBackend { bytes }
    }

    /// The `write_len` bytes of the file at the request's offset, or an error
    /// where they run past its end.
    pub fn download_part(&self, request: DownloadRequest) -> (outcome: Result<Vec<u8>, TransferRuntimeError>)
        ensures
            window_read(outcome, self@, request.offset, request.write_len, "download source out of bounds"@),
    {
        match copy_window(&self.bytes, request.offset, request.write_len) {
            Some(bytes) => Ok(bytes),
            None => Err(TransferRuntimeError::Message("download source out of bounds".to_owned())),
        }
    }
}

/// A download target of fixed size, held in memory.
#[derive(Debug)]
pub struct MemoryDownloadSink {
    bytes: Vec<u8>,
}

impl View for MemoryDownloadSink {
    type V = Seq<u8>;

    closed spec fn view(&self) -> Seq<u8> {
        self.bytes@
    }
}

impl MemoryDownloadSink {
    /// A sink of `size` zero bytes.
    pub fn new(size: usize) -> (sink: Self)
        ensures
            sink@ == Seq::new(size as nat, |i: int| 0u8),
    {
        let mut bytes: Vec<u8> = Vec::new();
        let mut i: usize = 0;
        while i < size
            invariant
                i <= size,
                bytes@ == Seq::new(i as nat, |k: int| 0u8),
            decreases size - i,
        {
            bytes.push(0);
            i = i + 1;
        }
        MemoryDownloadSink { bytes }
    }

    /// A copy of what the sink holds.
    pub fn bytes(&self) -> (bytes: Vec<u8>)
        ensures
            bytes@ == self@,
    {
        vstd::slice::slice_to_vec(self.bytes.as_slice())
    }

    /// Writes `bytes` at `offset`, or fails and changes nothing where they
    /// would run past the end of the sink.
    pub fn write_at(&mut self, offset: u64, bytes: &[u8]) -> (outcome: Result<(), TransferRuntimeError>)
        ensures
            fits_inside(old(self)@, offset, bytes@.len()) ==> outcome is Ok && final(self)@
                == overwrite(old(self)@, offset as usize as int, bytes@),
            !fits_inside(old(self)@, offset, bytes@.len()) ==> final(self)@ == old(self)@,
            !fits_inside(old(self)@, offset, bytes@.len()) ==> (outcome matches Err(
                TransferRuntimeError::Message(m),
            ) && m@ == "download sink out of bounds"@),
    {
        let start = offset as usize;
        let len = bytes.len();
        if len > self.bytes.len() || start > self.bytes.len() - len {
            return Err(TransferRuntimeError::Message("download sink out of bounds".to_owned()));
        }
        let end = start + len;
        let ghost initial = self.bytes@;
        let mut j: usize = 0;
        while j < len
            invariant
                len == bytes@.len(),
                end == start + len,
                end <= initial.len(),
                j <= len,
                self.bytes@.len() == initial.len(),
                forall|p: int| 0 <= p < start ==> #[trigger] self.bytes@[p] == initial[p],
                forall|p: int| end <= p < initial.len() ==> #[trigger] self.bytes@[p] == initial[p],
                forall|p: int| start <= p < start + j ==> #[trigger] self.bytes@[p] == bytes@[p - start],
            decreases len - j,
        {
            self.bytes.set(start + j, bytes[j]);
            j = j + 1;
        }
        assert(self.bytes@ =~= overwrite(initial, start as int, bytes@));
        Ok(())
    }
}

} // verus!
