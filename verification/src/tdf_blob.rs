//! The binary layout of one frame and its decoding.
//!
//! A blob is a sequence of unsigned 32-bit words. Word 0 is the number of
//! scans. Words `1..scan_count` give, doubled, the peak counts of all scans
//! but the last, which takes the peaks that remain. From word `scan_count` on
//! the peaks follow, two words each: a TOF delta and an intensity.

use crate::frame_reader::FrameReaderError;
use vstd::prelude::*;

verus! {

/// The words of one frame, as read from the binary file.
#[derive(Debug)]
pub struct TdfBlob {
    words: Vec<u32>,
}

impl View for TdfBlob {
    type V = Seq<u32>;

    closed spec fn view(&self) -> Seq<u32> {
        self.words@
    }
}

impl TdfBlob {
    pub fn new(words: Vec<u32>) -> (blob: TdfBlob)
        ensures
            blob@ == words@,
    {
        TdfBlob { words }
    }

    /// Reads a byte buffer as little-endian words. Up to three bytes that
    /// are left after the last whole word are dropped.
    pub fn from_le_bytes(bytes: &Vec<u8>) -> (blob: TdfBlob)
        ensures
            blob@ == words_of_le_bytes(bytes@),
    {
        let byte_count: usize = bytes.len();
        let word_count: usize = byte_count / 4;
        let mut words: Vec<u32> = Vec::new();
        let mut k: usize = 0;
        while k < word_count
            invariant
                byte_count == bytes@.len(),
                word_count == byte_count / 4,
                k <= word_count,
                words@.len() == k,
                forall|i: int| 0 <= i < k ==> #[trigger] words@[i] == le_word(bytes@, i),
            decreases word_count - k,
        {
            let b0: u32 = bytes[4 * k] as u32;
            let b1: u32 = bytes[4 * k + 1] as u32;
            let b2: u32 = bytes[4 * k + 2] as u32;
            let b3: u32 = bytes[4 * k + 3] as u32;
            words.push(b0 + 256 * b1 + 65536 * b2 + 16777216 * b3);
            k = k + 1;
        }
        assert(words@ =~= words_of_le_bytes(bytes@));
        TdfBlob { words }
    }

    /// The number of words.
    pub fn len(&self) -> (n: usize)
        ensures
            n == self@.len(),
    {
        self.words.len()
    }

    pub fn is_empty(&self) -> (empty: bool)
        ensures
            empty == (self@.len() == 0),
    {
        self.words.len() == 0
    }

    /// The word at `index`, or `None` past the end.
    pub fn get(&self, index: usize) -> (word: Option<u32>)
        ensures
            word == (if index < self@.len() {
                Some(self@[index as int])
            } else {
                None
            }),
    {
        if index < self.words.len() {
            Some(self.words[index])
        } else {
            None
        }
    }
}

/// The little-endian word that starts at byte `4 * k`.
pub open spec fn le_word(bytes: Seq<u8>, k: int) -> u32 {
    (bytes[4 * k] as int + 256 * bytes[4 * k + 1] as int + 65536 * bytes[4 * k + 2] as int
        + 16777216 * bytes[4 * k + 3] as int) as u32
}

/// The whole little-endian words of a byte buffer.
pub open spec fn words_of_le_bytes(bytes: Seq<u8>) -> Seq<u32> {
    Seq::new((bytes.len() / 4) as nat, |k: int| le_word(bytes, k))
}

/// The offset of the first peak of scan `k`, for `k < scan_count`: the sum of
/// the halved size words `1..=k`.
pub open spec fn offset_at(words: Seq<u32>, k: int) -> int
    decreases k,
{
    if k <= 0 {
        0
    } else {
        offset_at(words, k - 1) + words[k] as int / 2
    }
}

/// The scan offsets that the size words and the peak count give.
pub open spec fn scan_offsets_of(words: Seq<u32>, scan_count: int, peak_count: int) -> Seq<usize> {
    Seq::new(
        (scan_count + 1) as nat,
        |k: int|
            if k < scan_count {
                offset_at(words, k) as usize
            } else {
                peak_count as usize
            },
    )
}

/// Whether `read_scan_offsets` has all it needs: the size words lie inside
/// the blob and their halves add up to an offset that the machine can hold.
pub open spec fn scan_sizes_fit(words: Seq<u32>, scan_count: int) -> bool {
    &&& scan_count == 1 || scan_count <= words.len()
    &&& offset_at(words, scan_count - 1) <= usize::MAX
}

/// The sum of `count` TOF deltas, the first of which is the word at `first`.
pub open spec fn delta_sum(words: Seq<u32>, first: int, count: int) -> int
    decreases count,
{
    if count <= 0 {
        0
    } else {
        delta_sum(words, first, count - 1) + words[first + 2 * (count - 1)] as int
    }
}

/// The sum of the TOF deltas of the peaks `start..=p`.
pub open spec fn running_sum(words: Seq<u32>, scan_count: int, start: int, p: int) -> int {
    delta_sum(words, scan_count + 2 * start, p - start + 1)
}

/// The running sum at peak `p`, counted from the start of scan `k`.
pub open spec fn peak_sum(
    words: Seq<u32>,
    scan_count: int,
    offsets: Seq<usize>,
    k: int,
    p: int,
) -> int {
    running_sum(words, scan_count, offsets[k] as int, p)
}

/// `offsets` delimits `scan_count` scans over `peak_count` peaks.
pub open spec fn offsets_well_formed(offsets: Seq<usize>, scan_count: int, peak_count: int) -> bool {
    &&& scan_count >= 0
    &&& offsets.len() == scan_count + 1
    &&& offsets[0] == 0
    &&& offsets[scan_count] == peak_count
    &&& forall|i: int, j: int|
        0 <= i <= j <= scan_count ==> #[trigger] offsets[i] <= #[trigger] offsets[j]
}

/// Every peak's running sum is at least 1 and fits 32 bits, so that the TOF
/// index, which is the sum less one, is a 32-bit bin number.
pub open spec fn sums_in_range(words: Seq<u32>, scan_count: int, offsets: Seq<usize>) -> bool {
    forall|k: int, p: int|
        0 <= k < scan_count && offsets[k] <= p < offsets[k + 1] ==> 1 <= #[trigger] peak_sum(
            words,
            scan_count,
            offsets,
            k,
            p,
        ) <= u32::MAX
}

/// `tofs` holds, for each peak of each scan, the running sum less one.
pub open spec fn tofs_match(
    words: Seq<u32>,
    scan_count: int,
    offsets: Seq<usize>,
    tofs: Seq<u32>,
) -> bool {
    &&& tofs.len() == offsets[scan_count]
    &&& forall|k: int, p: int|
        0 <= k < scan_count && offsets[k] <= p < offsets[k + 1] ==> tofs[p] as int
            == #[trigger] peak_sum(words, scan_count, offsets, k, p) - 1
}

/// `intensities` holds the intensity word of each of `peak_count` peaks.
pub open spec fn intensities_match(
    words: Seq<u32>,
    scan_count: int,
    peak_count: int,
    intensities: Seq<u32>,
) -> bool {
    &&& intensities.len() == peak_count
    &&& forall|p: int|
        0 <= p < peak_count ==> #[trigger] intensities[p] == words[scan_count + 1 + 2 * p]
}

/// The number of scans that a blob announces.
pub open spec fn blob_scan_count(words: Seq<u32>) -> int {
    words[0] as int
}

/// The number of peaks that a blob holds.
pub open spec fn blob_peak_count(words: Seq<u32>) -> int {
    (words.len() - blob_scan_count(words)) / 2
}

/// The scan offsets of a whole blob.
pub open spec fn blob_scan_offsets(words: Seq<u32>) -> Seq<usize> {
    scan_offsets_of(words, blob_scan_count(words), blob_peak_count(words))
}

/// The blobs that decode: a header word that announces at least one scan and
/// no more than there are words, an even number of peak words, size words
/// that stay within the peak count, and running sums that give bin numbers.
pub open spec fn valid_blob(words: Seq<u32>) -> bool {
    &&& words.len() >= 1
    &&& 1 <= blob_scan_count(words) <= words.len()
    &&& (words.len() - blob_scan_count(words)) % 2 == 0
    &&& offset_at(words, blob_scan_count(words) - 1) <= blob_peak_count(words)
    &&& sums_in_range(words, blob_scan_count(words), blob_scan_offsets(words))
}

/// The three arrays are the decoding of `words`.
pub open spec fn decodes_to(
    words: Seq<u32>,
    scan_offsets: Seq<usize>,
    tof_indices: Seq<u32>,
    intensities: Seq<u32>,
) -> bool {
    &&& scan_offsets == blob_scan_offsets(words)
    &&& tofs_match(words, blob_scan_count(words), scan_offsets, tof_indices)
    &&& intensities_match(words, blob_scan_count(words), blob_peak_count(words), intensities)
}

/// The offsets never decrease up to the last explicit one.
pub proof fn lemma_offset_at_monotone(words: Seq<u32>, i: int, j: int)
    requires
        0 <= i <= j,
    ensures
        0 <= offset_at(words, i) <= offset_at(words, j),
    decreases j,
{
    if j > 0 {
        if i < j {
            lemma_offset_at_monotone(words, i, j - 1);
        } else {
            lemma_offset_at_monotone(words, i - 1, j - 1);
        }
    }
}

/// The scan offsets of a blob with fitting size words are well formed.
pub proof fn lemma_scan_offsets_well_formed(words: Seq<u32>, scan_count: int, peak_count: int)
    requires
        scan_count >= 1,
        0 <= peak_count <= usize::MAX,
        offset_at(words, scan_count - 1) <= peak_count,
    ensures
        offsets_well_formed(
            scan_offsets_of(words, scan_count, peak_count),
            scan_count,
            peak_count,
        ),
{
    let offsets = scan_offsets_of(words, scan_count, peak_count);
    assert forall|i: int, j: int| 0 <= i <= j <= scan_count implies #[trigger] offsets[i]
        <= #[trigger] offsets[j] by {
        if i < scan_count {
            lemma_offset_at_monotone(words, i, scan_count - 1);
        }
        if j < scan_count {
            lemma_offset_at_monotone(words, i, j);
            lemma_offset_at_monotone(words, j, scan_count - 1);
        }
    }
}

/// No blob with `scan_count` scans has size words whose halves add up to
/// more than the machine can hold: each half is below 2^31. On a machine
/// with 64-bit offsets this holds of every scan count that a header word can
/// announce.
pub open spec fn sizes_cannot_overflow(scan_count: int) -> bool {
    (scan_count - 1) * 0x7fff_ffff <= usize::MAX
}

/// The offset of scan `k` is at most `k` times the largest halved word.
pub proof fn lemma_offset_at_bounded(words: Seq<u32>, k: int)
    requires
        0 <= k,
    ensures
        offset_at(words, k) <= k * 0x7fff_ffff,
    decreases k,
{
    if k > 0 {
        lemma_offset_at_bounded(words, k - 1);
    }
}

/// Where the size words lie inside the blob and cannot overflow, the scan
/// offsets can be read.
pub proof fn lemma_scan_sizes_fit(words: Seq<u32>, scan_count: int)
    requires
        scan_count >= 1,
        scan_count == 1 || scan_count <= words.len(),
        sizes_cannot_overflow(scan_count),
    ensures
        scan_sizes_fit(words, scan_count),
{
    lemma_offset_at_bounded(words, scan_count - 1);
}

/// Reads the scan offsets: 0, then one more offset per size word, then
/// `peak_count` for the end of the last scan. Fails with `CorruptFrame`
/// where a size word lies past the end of the blob or the sizes add up to
/// more than the machine can hold.
pub fn read_scan_offsets(scan_count: usize, peak_count: usize, blob: &TdfBlob) -> (result: Result<
    Vec<usize>,
    FrameReaderError,
>)
    requires
        scan_count >= 1,
    ensures
        match result {
            Ok(offsets) => {
                &&& scan_sizes_fit(blob@, scan_count as int)
                &&& offsets@ == scan_offsets_of(blob@, scan_count as int, peak_count as int)
                &&& offsets@.len() == scan_count + 1
                &&& offsets@[0] == 0
                &&& offsets@[scan_count as int] == peak_count
            },
            Err(e) => {
                &&& e == FrameReaderError::CorruptFrame
                &&& !scan_sizes_fit(blob@, scan_count as int)
            },
        },
        (scan_count == 1 || scan_count <= blob@.len()) && sizes_cannot_overflow(scan_count as int)
            ==> result.is_ok(),
{
    if scan_count != 1 && scan_count > blob.len() {
        return Err(FrameReaderError::CorruptFrame);
    }
    let mut scan_offsets: Vec<usize> = Vec::new();
    scan_offsets.push(0);
    let mut last: usize = 0;
    let mut scan_index: usize = 0;
    while scan_index < scan_count - 1
        invariant
            scan_count >= 1,
            scan_count == 1 || scan_count <= blob@.len(),
            scan_index <= scan_count - 1,
            scan_offsets@.len() == scan_index + 1,
            last == offset_at(blob@, scan_index as int),
            forall|k: int| 0 <= k <= scan_index ==> scan_offsets@[k] == offset_at(blob@, k),
        decreases scan_count - 1 - scan_index,
    {
        let index: usize = scan_index + 1;
        let scan_size: usize = match blob.get(index) {
            Some(word) => (word / 2) as usize,
            None => {
                return Err(FrameReaderError::CorruptFrame);
            },
        };
        if scan_size > usize::MAX - last {
            proof {
                lemma_offset_at_monotone(blob@, index as int, scan_count - 1);
                lemma_offset_at_bounded(blob@, scan_count - 1);
            }
            return Err(FrameReaderError::CorruptFrame);
        }
        last = last + scan_size;
        scan_offsets.push(last);
        scan_index = index;
    }
    scan_offsets.push(peak_count);
    assert(scan_offsets@ =~= scan_offsets_of(blob@, scan_count as int, peak_count as int));
    Ok(scan_offsets)
}

/// Whether the intensity words of `peak_count` peaks lie inside the blob.
pub open spec fn intensities_present(words: Seq<u32>, scan_count: int, peak_count: int) -> bool {
    peak_count == 0 || scan_count + 2 * peak_count <= words.len()
}

/// Reads the intensity of each peak. Fails with `CorruptFrame` where an
/// intensity word lies past the end of the blob.
pub fn read_intensities(scan_count: usize, peak_count: usize, blob: &TdfBlob) -> (result: Result<
    Vec<u32>,
    FrameReaderError,
>)
    ensures
        match result {
            Ok(intensities) => {
                &&& intensities_present(blob@, scan_count as int, peak_count as int)
                &&& intensities_match(blob@, scan_count as int, peak_count as int, intensities@)
            },
            Err(e) => {
                &&& e == FrameReaderError::CorruptFrame
                &&& !intensities_present(blob@, scan_count as int, peak_count as int)
            },
        },
{
    let mut intensities: Vec<u32> = Vec::new();
    if peak_count == 0 {
        return Ok(intensities);
    }
    let word_count: usize = blob.len();
    if scan_count > word_count || peak_count > (word_count - scan_count) / 2 {
        return Err(FrameReaderError::CorruptFrame);
    }
    let mut peak_index: usize = 0;
    while peak_index < peak_count
        invariant
            blob@.len() <= usize::MAX,
            peak_index <= peak_count,
            scan_count + 2 * peak_count <= blob@.len(),
            intensities@.len() == peak_index,
            forall|p: int|
                0 <= p < peak_index ==> #[trigger] intensities@[p] == blob@[scan_count + 1 + 2 * p],
        decreases peak_count - peak_index,
    {
        let index: usize = scan_count + 1 + 2 * peak_index;
        match blob.get(index) {
            Some(word) => {
                intensities.push(word);
            },
            None => {
                return Err(FrameReaderError::CorruptFrame);
            },
        }
        peak_index = peak_index + 1;
    }
    Ok(intensities)
}

/// The number of peaks between two offsets: none where the second is not
/// above the first.
pub open spec fn scan_len(start: int, end: int) -> int {
    if end > start {
        end - start
    } else {
        0
    }
}

/// The TOF indices of the peaks `start..end`, read as one scan.
pub open spec fn scan_tofs(words: Seq<u32>, scan_count: int, start: int, end: int) -> Seq<u32> {
    Seq::new(
        scan_len(start, end) as nat,
        |i: int| (running_sum(words, scan_count, start, start + i) - 1) as u32,
    )
}

/// The TOF indices of the first `k` scans that `offsets` delimits, one scan
/// after the other.
pub open spec fn all_tofs(words: Seq<u32>, scan_count: int, offsets: Seq<usize>, k: int) -> Seq<
    u32,
>
    decreases k,
{
    if k <= 0 {
        Seq::empty()
    } else {
        all_tofs(words, scan_count, offsets, k - 1) + scan_tofs(
            words,
            scan_count,
            offsets[k - 1] as int,
            offsets[k] as int,
        )
    }
}

/// Peak `p` of the scan that starts at `start` can be read: its delta word
/// lies inside the blob, and its running sum is at least 1 and fits 32 bits.
pub open spec fn peak_decodable(words: Seq<u32>, scan_count: int, start: int, p: int) -> bool {
    &&& scan_count + 2 * p < words.len()
    &&& 1 <= running_sum(words, scan_count, start, p) <= u32::MAX
}

/// Every peak of the scan `start..end` can be read.
pub open spec fn scan_decodable(words: Seq<u32>, scan_count: int, start: int, end: int) -> bool {
    forall|p: int| start <= p < end ==> #[trigger] peak_decodable(words, scan_count, start, p)
}

/// Every peak of the first `k` scans can be read.
pub open spec fn scans_decodable(
    words: Seq<u32>,
    scan_count: int,
    offsets: Seq<usize>,
    k: int,
) -> bool {
    forall|j: int|
        0 <= j < k ==> scan_decodable(
            words,
            scan_count,
            #[trigger] offsets[j] as int,
            offsets[j + 1] as int,
        )
}

/// Reads the TOF index of each peak, scan by scan: within a scan, the sum of
/// the deltas up to the peak, less one. A scan whose end offset is not above
/// its start offset has no peak. Fails with `CorruptFrame` where a delta
/// word lies past the end of the blob, or a sum is 0 or does not fit 32 bits.
/// `peak_count` is the number of peaks that the caller expects, and changes
/// nothing.
pub fn read_tof_indices(
    scan_count: usize,
    peak_count: usize,
    blob: &TdfBlob,
    scan_offsets: &Vec<usize>,
) -> (result: Result<Vec<u32>, FrameReaderError>)
    requires
        scan_count == 0 || scan_offsets@.len() > scan_count,
    ensures
        match result {
            Ok(tof_indices) => {
                &&& scans_decodable(blob@, scan_count as int, scan_offsets@, scan_count as int)
                &&& tof_indices@ == all_tofs(
                    blob@,
                    scan_count as int,
                    scan_offsets@,
                    scan_count as int,
                )
            },
            Err(e) => {
                &&& e == FrameReaderError::CorruptFrame
                &&& !scans_decodable(blob@, scan_count as int, scan_offsets@, scan_count as int)
            },
        },
{
    let mut tof_indices: Vec<u32> = Vec::new();
    let word_count: usize = blob.len();
    let mut scan_index: usize = 0;
    while scan_index < scan_count
        invariant
            word_count == blob@.len(),
            scan_count == 0 || scan_offsets@.len() > scan_count,
            scan_index <= scan_count,
            scans_decodable(blob@, scan_count as int, scan_offsets@, scan_index as int),
            tof_indices@ == all_tofs(blob@, scan_count as int, scan_offsets@, scan_index as int),
        decreases scan_count - scan_index,
    {
        let start_offset: usize = scan_offsets[scan_index];
        let end_offset: usize = scan_offsets[scan_index + 1];
        let ghost done = tof_indices@;
        let mut current_sum: u32 = 0;
        let mut peak_index: usize = start_offset;
        assert(tof_indices@ =~= done + scan_tofs(
            blob@,
            scan_count as int,
            start_offset as int,
            peak_index as int,
        ));
        while peak_index < end_offset
            invariant
                word_count == blob@.len(),
                scan_index < scan_count,
                scan_offsets@.len() > scan_count,
                start_offset == scan_offsets@[scan_index as int],
                end_offset == scan_offsets@[scan_index + 1],
                start_offset <= peak_index,
                peak_index <= end_offset || peak_index == start_offset,
                current_sum == running_sum(
                    blob@,
                    scan_count as int,
                    start_offset as int,
                    peak_index - 1,
                ),
                forall|p: int|
                    start_offset <= p < peak_index ==> #[trigger] peak_decodable(
                        blob@,
                        scan_count as int,
                        start_offset as int,
                        p,
                    ),
                tof_indices@ == done + scan_tofs(
                    blob@,
                    scan_count as int,
                    start_offset as int,
                    peak_index as int,
                ),
            decreases end_offset - peak_index,
        {
            let ghost sum_here = running_sum(
                blob@,
                scan_count as int,
                start_offset as int,
                peak_index as int,
            );
            if scan_count >= word_count || peak_index > (word_count - 1 - scan_count) / 2 {
                assert(!peak_decodable(
                    blob@,
                    scan_count as int,
                    start_offset as int,
                    peak_index as int,
                ));
                assert(!scan_decodable(
                    blob@,
                    scan_count as int,
                    scan_offsets@[scan_index as int] as int,
                    scan_offsets@[scan_index + 1] as int,
                ));
                return Err(FrameReaderError::CorruptFrame);
            }
            let index: usize = scan_count + 2 * peak_index;
            let delta: u32 = match blob.get(index) {
                Some(word) => word,
                None => {
                    return Err(FrameReaderError::CorruptFrame);
                },
            };
            assert(sum_here == current_sum + delta);
            if delta > u32::MAX - current_sum || current_sum + delta == 0 {
                assert(!peak_decodable(
                    blob@,
                    scan_count as int,
                    start_offset as int,
                    peak_index as int,
                ));
                assert(!scan_decodable(
                    blob@,
                    scan_count as int,
                    scan_offsets@[scan_index as int] as int,
                    scan_offsets@[scan_index + 1] as int,
                ));
                return Err(FrameReaderError::CorruptFrame);
            }
            current_sum = current_sum + delta;
            tof_indices.push(current_sum - 1);
            assert(tof_indices@ =~= done + scan_tofs(
                blob@,
                scan_count as int,
                start_offset as int,
                peak_index + 1,
            ));
            peak_index = peak_index + 1;
        }
        assert(scan_tofs(blob@, scan_count as int, start_offset as int, peak_index as int)
            =~= scan_tofs(blob@, scan_count as int, start_offset as int, end_offset as int));
        assert(scan_decodable(
            blob@,
            scan_count as int,
            scan_offsets@[scan_index as int] as int,
            scan_offsets@[scan_index + 1] as int,
        ));
        scan_index = scan_index + 1;
    }
    Ok(tof_indices)
}

/// With well-formed offsets every peak lies in the blob exactly where the
/// running sums are in range, given that the blob holds two words per peak.
pub proof fn lemma_decodable_iff_sums_in_range(
    words: Seq<u32>,
    scan_count: int,
    peak_count: int,
    offsets: Seq<usize>,
)
    requires
        offsets_well_formed(offsets, scan_count, peak_count),
        scan_count + 2 * peak_count <= words.len(),
    ensures
        scans_decodable(words, scan_count, offsets, scan_count) <==> sums_in_range(
            words,
            scan_count,
            offsets,
        ),
{
    if scans_decodable(words, scan_count, offsets, scan_count) {
        assert forall|k: int, p: int|
            0 <= k < scan_count && offsets[k] <= p < offsets[k + 1] implies 1
            <= #[trigger] peak_sum(words, scan_count, offsets, k, p) <= u32::MAX by {
            assert(scan_decodable(words, scan_count, offsets[k] as int, offsets[k + 1] as int));
            assert(peak_decodable(words, scan_count, offsets[k] as int, p));
        }
    }
    if sums_in_range(words, scan_count, offsets) {
        assert forall|j: int| 0 <= j < scan_count implies scan_decodable(
            words,
            scan_count,
            #[trigger] offsets[j] as int,
            offsets[j + 1] as int,
        ) by {
            assert forall|p: int| offsets[j] <= p < offsets[j + 1] implies #[trigger] peak_decodable(
                words,
                scan_count,
                offsets[j] as int,
                p,
            ) by {
                assert(offsets[j + 1] <= offsets[scan_count]);
                assert(1 <= peak_sum(words, scan_count, offsets, j, p) <= u32::MAX);
            }
        }
    }
}

/// With well-formed offsets the scans follow one another without a gap, so
/// that the TOF index of peak `p` stands at position `p`.
pub proof fn lemma_all_tofs_by_peak(
    words: Seq<u32>,
    scan_count: int,
    peak_count: int,
    offsets: Seq<usize>,
    k: int,
)
    requires
        offsets_well_formed(offsets, scan_count, peak_count),
        0 <= k <= scan_count,
        scans_decodable(words, scan_count, offsets, k),
    ensures
        all_tofs(words, scan_count, offsets, k).len() == offsets[k],
        forall|j: int, p: int|
            0 <= j < k && offsets[j] <= p < offsets[j + 1] ==> all_tofs(
                words,
                scan_count,
                offsets,
                k,
            )[p] as int == #[trigger] peak_sum(words, scan_count, offsets, j, p) - 1,
    decreases k,
{
    if k > 0 {
        assert forall|j: int| 0 <= j < k - 1 implies scan_decodable(
            words,
            scan_count,
            #[trigger] offsets[j] as int,
            offsets[j + 1] as int,
        ) by {}
        lemma_all_tofs_by_peak(words, scan_count, peak_count, offsets, k - 1);
        let before = all_tofs(words, scan_count, offsets, k - 1);
        let start = offsets[k - 1] as int;
        let scan = scan_tofs(words, scan_count, start, offsets[k] as int);
        assert(offsets[k - 1] <= offsets[k]);
        assert(scan_decodable(words, scan_count, offsets[k - 1] as int, offsets[k - 1 + 1] as int));
        assert forall|j: int, p: int|
            0 <= j < k && offsets[j] <= p < offsets[j + 1] implies (before + scan)[p] as int
            == #[trigger] peak_sum(words, scan_count, offsets, j, p) - 1 by {
            if j < k - 1 {
                assert(offsets[j + 1] <= offsets[k - 1]);
                assert((before + scan)[p] == before[p]);
            } else {
                assert(peak_decodable(words, scan_count, start, p));
                assert((before + scan)[p] == scan[p - start]);
            }
        }
    }
}

/// A sum of deltas never shrinks when more deltas are added, and grows
/// where none of the added deltas is 0.
pub proof fn lemma_delta_sum_grows(words: Seq<u32>, first: int, shorter: int, longer: int)
    requires
        0 <= shorter <= longer,
    ensures
        delta_sum(words, first, shorter) <= delta_sum(words, first, longer),
        shorter < longer && (forall|c: int|
            shorter <= c < longer ==> #[trigger] words[first + 2 * c] != 0) ==> delta_sum(
            words,
            first,
            shorter,
        ) < delta_sum(words, first, longer),
    decreases longer,
{
    if shorter < longer {
        lemma_delta_sum_grows(words, first, shorter, longer - 1);
        if forall|c: int| shorter <= c < longer ==> #[trigger] words[first + 2 * c] != 0 {
            assert(words[first + 2 * (longer - 1)] != 0);
        }
    }
}

/// Every peak lies in a scan.
pub proof fn lemma_peak_has_scan(offsets: Seq<usize>, scan_count: int, peak_count: int, p: int)
    requires
        offsets_well_formed(offsets, scan_count, peak_count),
        0 <= p < peak_count,
    ensures
        exists|k: int| 0 <= k < scan_count && offsets[k] <= p < #[trigger] offsets[k + 1],
{
    let k = scan_of_peak(offsets, scan_count, peak_count, p, 0);
    assert(offsets[k] <= p < offsets[k + 1]);
}

proof fn scan_of_peak(offsets: Seq<usize>, scan_count: int, peak_count: int, p: int, from: int) -> (k:
    int)
    requires
        offsets_well_formed(offsets, scan_count, peak_count),
        0 <= from < scan_count,
        offsets[from] <= p < peak_count,
    ensures
        from <= k < scan_count,
        offsets[k] <= p < offsets[k + 1],
    decreases scan_count - from,
{
    if p < offsets[from + 1] {
        from
    } else {
        scan_of_peak(offsets, scan_count, peak_count, p, from + 1)
    }
}

/// The offsets of a valid blob and its decoded arrays have the shape of a
/// frame: one more offset than there are scans, from 0 up to the peak count
/// without a decrease, and one TOF index and one intensity per peak.
pub proof fn lemma_decoded_shape(
    words: Seq<u32>,
    scan_offsets: Seq<usize>,
    tof_indices: Seq<u32>,
    intensities: Seq<u32>,
)
    requires
        valid_blob(words),
        words.len() <= usize::MAX,
        decodes_to(words, scan_offsets, tof_indices, intensities),
    ensures
        scan_offsets.len() == blob_scan_count(words) + 1,
        scan_offsets[0] == 0,
        scan_offsets[blob_scan_count(words)] == blob_peak_count(words),
        forall|k: int|
            0 <= k < blob_scan_count(words) ==> scan_offsets[k] <= #[trigger] scan_offsets[k + 1],
        tof_indices.len() == blob_peak_count(words),
        intensities.len() == blob_peak_count(words),
{
    lemma_scan_offsets_well_formed(words, blob_scan_count(words), blob_peak_count(words));
}

/// Within one scan of a decoded blob the TOF indices never decrease, and
/// from a peak `i` to a later peak `j` they increase where no delta after
/// that of `i`, up to that of `j`, is 0.
pub proof fn lemma_tof_indices_increase(
    words: Seq<u32>,
    scan_offsets: Seq<usize>,
    tof_indices: Seq<u32>,
    intensities: Seq<u32>,
    k: int,
    i: int,
    j: int,
)
    requires
        valid_blob(words),
        decodes_to(words, scan_offsets, tof_indices, intensities),
        0 <= k < blob_scan_count(words),
        scan_offsets[k] <= i < j < scan_offsets[k + 1],
    ensures
        tof_indices[i] <= tof_indices[j],
        (forall|q: int| i < q <= j ==> #[trigger] words[blob_scan_count(words) + 2 * q] != 0)
            ==> tof_indices[i] < tof_indices[j],
{
    let scan_count = blob_scan_count(words);
    let start = scan_offsets[k] as int;
    let first = scan_count + 2 * start;
    lemma_delta_sum_grows(words, first, i - start + 1, j - start + 1);
    assert(tof_indices[i] == peak_sum(words, scan_count, scan_offsets, k, i) - 1);
    assert(tof_indices[j] == peak_sum(words, scan_count, scan_offsets, k, j) - 1);
    if forall|q: int| i < q <= j ==> #[trigger] words[scan_count + 2 * q] != 0 {
        assert forall|c: int| i - start + 1 <= c < j - start + 1 implies #[trigger] words[first + 2
            * c] != 0 by {
            assert(words[scan_count + 2 * (c + start)] != 0);
        }
    }
}

/// A blob has one decoding.
pub proof fn lemma_decoding_unique(
    words: Seq<u32>,
    scan_offsets: Seq<usize>,
    tof_indices: Seq<u32>,
    intensities: Seq<u32>,
    other_offsets: Seq<usize>,
    other_tofs: Seq<u32>,
    other_intensities: Seq<u32>,
)
    requires
        valid_blob(words),
        words.len() <= usize::MAX,
        decodes_to(words, scan_offsets, tof_indices, intensities),
        decodes_to(words, other_offsets, other_tofs, other_intensities),
    ensures
        scan_offsets == other_offsets,
        tof_indices == other_tofs,
        intensities == other_intensities,
{
    let scan_count = blob_scan_count(words);
    let peak_count = blob_peak_count(words);
    lemma_scan_offsets_well_formed(words, scan_count, peak_count);
    assert(intensities =~= other_intensities);
    assert forall|p: int| 0 <= p < tof_indices.len() implies tof_indices[p] == other_tofs[p] by {
        lemma_peak_has_scan(scan_offsets, scan_count, peak_count, p);
        let k = choose|k: int|
            0 <= k < scan_count && scan_offsets[k] <= p < #[trigger] scan_offsets[k + 1];
        assert(tof_indices[p] == peak_sum(words, scan_count, scan_offsets, k, p) - 1);
        assert(other_tofs[p] == peak_sum(words, scan_count, scan_offsets, k, p) - 1);
    }
    assert(tof_indices =~= other_tofs);
}

} // verus!
