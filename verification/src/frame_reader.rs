//! Indexed access to the frames of one acquisition.
//!
//! A reader is built once from the rows of the metadata tables. It keeps one
//! frame without peaks per row and fills in the peaks of a frame when the
//! frame is asked for, from the blob that the caller read at the frame's
//! binary offset.

use crate::ms_data::{share_settings, AcquisitionType, Frame, MSLevel, QuadrupoleSettings};
use crate::sql_rows::{SqlFrame, SqlMaldiFrameInfo, SqlWindowGroup};
use crate::tdf_blob::{
    blob_peak_count, blob_scan_count, decodes_to, lemma_all_tofs_by_peak,
    lemma_decodable_iff_sums_in_range, lemma_decoding_unique, lemma_offset_at_monotone,
    lemma_scan_offsets_well_formed, offset_at, read_intensities,
    read_scan_offsets, read_tof_indices, valid_blob, TdfBlob,
};
use rayon::iter::{IntoParallelIterator, ParallelIterator};
use std::collections::HashMap;
use std::sync::Arc;
use vstd::prelude::*;
use vstd::std_specs::hash::group_hash_axioms;

verus! {

broadcast use group_hash_axioms;

/// What can go wrong while a reader is built or a frame is read.
#[derive(Debug, PartialEq, Eq)]
pub enum FrameReaderError {
    /// Compression type 3 without what a backend for it decodes: no backend
    /// is present, or a frame of such a dataset is asked for from a raw blob.
    /// Also what a backend decoded, handed to a reader of another type.
    TimscompressError,
    /// The binary file could not be opened or read.
    TdfBlobReaderError(String),
    /// The global metadata could not be read.
    MetadataReaderError(String),
    /// The input directory or a file in it is missing.
    FileNotFound(String),
    /// A table could not be read.
    SqlReaderError(String),
    /// A blob does not have the layout of a frame.
    CorruptFrame,
    /// The isolation windows could not be read.
    QuadrupoleSettingsReaderError(String),
    /// A position at or past the number of frames.
    IndexOutOfBounds,
    /// A compression type other than 2 and 3, found when a reader is built.
    CompressionTypeError(u8),
    /// Compression type 3 over a `Frames` table without rows.
    EmptyFrameTable,
}

/// Some row has the given `MsMsType`.
pub open spec fn has_msms_type(rows: Seq<SqlFrame>, msms_type: u8) -> bool {
    exists|i: int| 0 <= i < rows.len() && (#[trigger] rows[i]).msms_type == msms_type
}

/// The acquisition type of a dataset: DDA where a row has `MsMsType` 8, else
/// DIA where a row has `MsMsType` 9, else unknown.
pub open spec fn acquisition_of(rows: Seq<SqlFrame>) -> AcquisitionType {
    if has_msms_type(rows, 8) {
        AcquisitionType::DDAPASEF
    } else if has_msms_type(rows, 9) {
        AcquisitionType::DIAPASEF
    } else {
        AcquisitionType::Unknown
    }
}

/// Finds the acquisition type of a dataset from its `Frames` rows.
pub fn detect_acquisition(sql_frames: &Vec<SqlFrame>) -> (acquisition: AcquisitionType)
    ensures
        acquisition == acquisition_of(sql_frames@),
{
    let mut dda: bool = false;
    let mut dia: bool = false;
    let mut i: usize = 0;
    while i < sql_frames.len()
        invariant
            i <= sql_frames.len(),
            dda == has_msms_type(sql_frames@.take(i as int), 8),
            dia == has_msms_type(sql_frames@.take(i as int), 9),
        decreases sql_frames.len() - i,
    {
        let ghost before = sql_frames@.take(i as int);
        let ghost after = sql_frames@.take(i + 1);
        let msms_type: u8 = sql_frames[i].msms_type;
        proof {
            assert(after[i as int] == sql_frames@[i as int]);
            assert forall|t: u8| has_msms_type(before, t) implies has_msms_type(after, t) by {
                let j = choose|j: int| 0 <= j < before.len() && (#[trigger] before[j]).msms_type == t;
                assert(after[j] == before[j]);
            }
            assert forall|t: u8| has_msms_type(after, t) && t != msms_type implies has_msms_type(
                before,
                t,
            ) by {
                let j = choose|j: int| 0 <= j < after.len() && (#[trigger] after[j]).msms_type == t;
                assert(before[j] == after[j]);
            }
        }
        if msms_type == 8 {
            dda = true;
        }
        if msms_type == 9 {
            dia = true;
        }
        i = i + 1;
    }
    assert(sql_frames@.take(i as int) =~= sql_frames@);
    if dda {
        AcquisitionType::DDAPASEF
    } else if dia {
        AcquisitionType::DIAPASEF
    } else {
        AcquisitionType::Unknown
    }
}

/// Every mapping row names a frame of the table, by its 1-based position.
pub open spec fn window_rows_in_range(frame_count: int, rows: Seq<SqlWindowGroup>) -> bool {
    forall|j: int| 0 <= j < rows.len() ==> 1 <= (#[trigger] rows[j]).frame <= frame_count
}

/// The window group of each frame: 0 where no row names the frame, else the
/// group of the last row that does.
pub open spec fn window_groups_of(frame_count: int, rows: Seq<SqlWindowGroup>) -> Seq<u8>
    decreases rows.len(),
{
    if rows.len() == 0 {
        Seq::new(frame_count as nat, |i: int| 0u8)
    } else {
        window_groups_of(frame_count, rows.drop_last()).update(
            rows.last().frame - 1,
            rows.last().window_group,
        )
    }
}

/// Whether every mapping row names a frame of the table.
pub fn check_window_rows(frame_count: usize, rows: &Vec<SqlWindowGroup>) -> (fit: bool)
    ensures
        fit == window_rows_in_range(frame_count as int, rows@),
{
    let mut j: usize = 0;
    while j < rows.len()
        invariant
            j <= rows.len(),
            forall|k: int| 0 <= k < j ==> 1 <= (#[trigger] rows@[k]).frame <= frame_count,
        decreases rows.len() - j,
    {
        if rows[j].frame < 1 || rows[j].frame > frame_count {
            return false;
        }
        j = j + 1;
    }
    true
}

/// Spreads the mapping rows over the frames of the table.
pub fn assign_window_groups(frame_count: usize, rows: &Vec<SqlWindowGroup>) -> (groups: Vec<u8>)
    requires
        window_rows_in_range(frame_count as int, rows@),
    ensures
        groups@ == window_groups_of(frame_count as int, rows@),
        groups@.len() == frame_count,
{
    let mut groups: Vec<u8> = Vec::new();
    let mut i: usize = 0;
    while i < frame_count
        invariant
            i <= frame_count,
            groups@ =~= Seq::new(i as nat, |k: int| 0u8),
        decreases frame_count - i,
    {
        groups.push(0);
        i = i + 1;
    }
    let mut j: usize = 0;
    while j < rows.len()
        invariant
            j <= rows.len(),
            window_rows_in_range(frame_count as int, rows@),
            groups@.len() == frame_count,
            groups@ == window_groups_of(frame_count as int, rows@.take(j as int)),
        decreases rows.len() - j,
    {
        let row: SqlWindowGroup = rows[j];
        assert(rows@.take(j + 1).drop_last() =~= rows@.take(j as int));
        assert(rows@.take(j + 1).last() == rows@[j as int]);
        groups.set(row.frame - 1, row.window_group);
        j = j + 1;
    }
    assert(rows@.take(j as int) =~= rows@);
    groups
}

/// The MALDI rows keyed by frame id; of two rows for one frame the later
/// one stays.
pub open spec fn maldi_map_of(rows: Seq<SqlMaldiFrameInfo>) -> Map<usize, SqlMaldiFrameInfo>
    decreases rows.len(),
{
    if rows.len() == 0 {
        Map::empty()
    } else {
        maldi_map_of(rows.drop_last()).insert(rows.last().frame, rows.last())
    }
}

/// The keys of the MALDI map are the frame ids of the rows.
pub proof fn lemma_maldi_map_keys(rows: Seq<SqlMaldiFrameInfo>, id: usize)
    ensures
        maldi_map_of(rows).contains_key(id) <==> exists|j: int|
            0 <= j < rows.len() && (#[trigger] rows[j]).frame == id,
    decreases rows.len(),
{
    if rows.len() > 0 {
        let front = rows.drop_last();
        lemma_maldi_map_keys(front, id);
        if maldi_map_of(rows).contains_key(id) {
            if rows.last().frame == id {
                assert(rows[rows.len() - 1].frame == id);
            } else {
                let j = choose|j: int| 0 <= j < front.len() && (#[trigger] front[j]).frame == id;
                assert(rows[j] == front[j]);
            }
        }
        if exists|j: int| 0 <= j < rows.len() && (#[trigger] rows[j]).frame == id {
            let j = choose|j: int| 0 <= j < rows.len() && (#[trigger] rows[j]).frame == id;
            if j < rows.len() - 1 {
                assert(front[j] == rows[j]);
            }
        }
    }
}

/// Keys the MALDI rows by frame id.
pub fn build_maldi_map(rows: &Vec<SqlMaldiFrameInfo>) -> (map: HashMap<usize, SqlMaldiFrameInfo>)
    ensures
        map@ == maldi_map_of(rows@),
{
    let mut map: HashMap<usize, SqlMaldiFrameInfo> = HashMap::new();
    let mut j: usize = 0;
    while j < rows.len()
        invariant
            j <= rows.len(),
            map@ == maldi_map_of(rows@.take(j as int)),
        decreases rows.len() - j,
    {
        assert(rows@.take(j + 1).drop_last() =~= rows@.take(j as int));
        assert(rows@.take(j + 1).last() == rows@[j as int]);
        let row: SqlMaldiFrameInfo = rows[j].clone();
        map.insert(row.frame, row);
        j = j + 1;
    }
    assert(rows@.take(j as int) =~= rows@);
    map
}

/// A frame takes an isolation window where the dataset is DIA and the frame
/// is an MS2 frame.
pub open spec fn takes_window(acquisition: AcquisitionType, row: SqlFrame) -> bool {
    acquisition == AcquisitionType::DIAPASEF && MSLevel::of_msms_type(row.msms_type)
        == MSLevel::MS2
}

/// `frame` is the frame without peaks of the row at position `index`.
pub open spec fn is_skeleton_of(
    frame: Frame,
    index: int,
    rows: Seq<SqlFrame>,
    acquisition: AcquisitionType,
    window_groups: Seq<u8>,
    quadrupole_settings: Seq<Arc<QuadrupoleSettings>>,
    maldi_map: Map<usize, SqlMaldiFrameInfo>,
) -> bool {
    let row = rows[index];
    &&& frame.has_no_peaks()
    &&& frame.index == row.id
    &&& frame.ms_level == MSLevel::of_msms_type(row.msms_type)
    &&& frame.rt_in_seconds == row.rt
    &&& frame.acquisition_type == acquisition
    &&& frame.accumulation_time == row.accumulation_time
    &&& frame.window_group == (if takes_window(acquisition, row) {
        window_groups[index]
    } else {
        0u8
    })
    &&& if takes_window(acquisition, row) && window_groups[index] > 0 {
        frame.quadrupole_settings == quadrupole_settings[window_groups[index] - 1]
    } else {
        frame.quadrupole_settings.is_default()
    }
    &&& frame.maldi_info == (if maldi_map.contains_key(row.id) {
        Some(maldi_map[row.id].maldi_info())
    } else {
        None
    })
}

/// The window group of the frame at `index`, where it takes a window, is one
/// that the tables provide: the frame has an entry in `window_groups`, and
/// the group is 0 or counts into `quadrupole_settings`.
pub open spec fn window_known(
    index: int,
    rows: Seq<SqlFrame>,
    acquisition: AcquisitionType,
    window_groups: Seq<u8>,
    settings_count: int,
) -> bool {
    takes_window(acquisition, rows[index]) ==> index < window_groups.len()
        && window_groups[index] <= settings_count
}

/// Builds the frame of the row at position `index`, without peaks. A DIA MS2
/// frame gets its window group and shares the settings of that group; window
/// group 0 and every other frame get the default settings. The frame gets the
/// MALDI metadata that `maldi_map` holds for its id.
pub fn get_frame_without_data(
    index: usize,
    sql_frames: &Vec<SqlFrame>,
    acquisition: AcquisitionType,
    window_groups: &Vec<u8>,
    quadrupole_settings: &Vec<Arc<QuadrupoleSettings>>,
    maldi_map: &HashMap<usize, SqlMaldiFrameInfo>,
) -> (frame: Frame)
    requires
        index < sql_frames@.len(),
        window_known(
            index as int,
            sql_frames@,
            acquisition,
            window_groups@,
            quadrupole_settings@.len() as int,
        ),
    ensures
        is_skeleton_of(
            frame,
            index as int,
            sql_frames@,
            acquisition,
            window_groups@,
            quadrupole_settings@,
            maldi_map@,
        ),
{
    let mut frame: Frame = Frame::default();
    let sql_frame = &sql_frames[index];
    frame.index = sql_frame.id;
    frame.ms_level = MSLevel::read_from_msms_type(sql_frame.msms_type);
    frame.rt_in_seconds = sql_frame.rt;
    frame.acquisition_type = acquisition;
    frame.accumulation_time = sql_frame.accumulation_time;
    if acquisition == AcquisitionType::DIAPASEF && frame.ms_level == MSLevel::MS2 {
        let window_group: u8 = window_groups[index];
        frame.window_group = window_group;
        if window_group > 0 {
            let position: usize = (window_group - 1) as usize;
            frame.quadrupole_settings = share_settings(&quadrupole_settings[position]);
        }
    }
    match maldi_map.get(&sql_frame.id) {
        Some(maldi) => {
            frame.maldi_info = Some(maldi.to_maldi_info());
        },
        None => {},
    }
    frame
}

/// Builds the frames of all rows on rayon's worker threads, with
/// `into_par_iter`, `map` and `collect` over the positions `0..len`. Rayon
/// collects an indexed parallel iterator into a `Vec` in index order, so
/// entry `i` is what `get_frame_without_data` returns for position `i`.
#[verifier::external_body]
fn build_skeletons(
    sql_frames: &Vec<SqlFrame>,
    acquisition: AcquisitionType,
    window_groups: &Vec<u8>,
    quadrupole_settings: &Vec<Arc<QuadrupoleSettings>>,
    maldi_map: &HashMap<usize, SqlMaldiFrameInfo>,
) -> (frames: Vec<Frame>)
    requires
        forall|i: int|
            0 <= i < sql_frames@.len() ==> #[trigger] window_known(
                i,
                sql_frames@,
                acquisition,
                window_groups@,
                quadrupole_settings@.len() as int,
            ),
    ensures
        frames@.len() == sql_frames@.len(),
        forall|i: int|
            0 <= i < sql_frames@.len() ==> is_skeleton_of(
                #[trigger] frames@[i],
                i,
                sql_frames@,
                acquisition,
                window_groups@,
                quadrupole_settings@,
                maldi_map@,
            ),
{
    (0..sql_frames.len())
        .into_par_iter()
        .map(|index| {
            get_frame_without_data(
                index,
                sql_frames,
                acquisition,
                window_groups,
                quadrupole_settings,
                maldi_map,
            )
        })
        .collect()
}

/// `max` is the largest scan count among the rows.
pub open spec fn is_max_scan_count(rows: Seq<SqlFrame>, max: u64) -> bool {
    &&& exists|i: int| 0 <= i < rows.len() && (#[trigger] rows[i]).scan_count == max
    &&& forall|i: int| 0 <= i < rows.len() ==> (#[trigger] rows[i]).scan_count <= max
}

/// The largest scan count among the rows, or `None` where there is no row.
pub fn max_scan_count(sql_frames: &Vec<SqlFrame>) -> (max: Option<u64>)
    ensures
        match max {
            Some(m) => is_max_scan_count(sql_frames@, m),
            None => sql_frames@.len() == 0,
        },
{
    if sql_frames.len() == 0 {
        return None;
    }
    let mut best: u64 = sql_frames[0].scan_count;
    let mut i: usize = 1;
    while i < sql_frames.len()
        invariant
            1 <= i <= sql_frames.len(),
            exists|k: int| 0 <= k < i && (#[trigger] sql_frames@[k]).scan_count == best,
            forall|k: int| 0 <= k < i ==> (#[trigger] sql_frames@[k]).scan_count <= best,
        decreases sql_frames.len() - i,
    {
        if sql_frames[i].scan_count > best {
            best = sql_frames[i].scan_count;
        }
        i = i + 1;
    }
    Some(best)
}

/// The window tables suit the frames: where the dataset is DIA, every
/// mapping row names a frame of the table and every MS2 frame's window group
/// is 0 or counts into the window configurations.
pub open spec fn window_tables_fit(
    rows: Seq<SqlFrame>,
    window_rows: Seq<SqlWindowGroup>,
    settings_count: int,
) -> bool {
    acquisition_of(rows) == AcquisitionType::DIAPASEF ==> {
        &&& window_rows_in_range(rows.len() as int, window_rows)
        &&& forall|i: int|
            0 <= i < rows.len() ==> #[trigger] window_known(
                i,
                rows,
                AcquisitionType::DIAPASEF,
                window_groups_of(rows.len() as int, window_rows),
                settings_count,
            )
    }
}

/// Whether the window tables suit the frames.
pub fn check_window_tables(
    sql_frames: &Vec<SqlFrame>,
    window_rows: &Vec<SqlWindowGroup>,
    settings_count: usize,
) -> (fit: bool)
    ensures
        fit == window_tables_fit(sql_frames@, window_rows@, settings_count as int),
{
    let acquisition = detect_acquisition(sql_frames);
    if acquisition != AcquisitionType::DIAPASEF {
        return true;
    }
    if !check_window_rows(sql_frames.len(), window_rows) {
        return false;
    }
    let groups = assign_window_groups(sql_frames.len(), window_rows);
    let mut i: usize = 0;
    while i < sql_frames.len()
        invariant
            i <= sql_frames.len(),
            acquisition_of(sql_frames@) == AcquisitionType::DIAPASEF,
            window_rows_in_range(sql_frames@.len() as int, window_rows@),
            groups@ == window_groups_of(sql_frames@.len() as int, window_rows@),
            groups@.len() == sql_frames@.len(),
            forall|k: int|
                0 <= k < i ==> #[trigger] window_known(
                    k,
                    sql_frames@,
                    AcquisitionType::DIAPASEF,
                    groups@,
                    settings_count as int,
                ),
        decreases sql_frames.len() - i,
    {
        let level = MSLevel::read_from_msms_type(sql_frames[i].msms_type);
        if level == MSLevel::MS2 && groups[i] as usize > settings_count {
            assert(!window_known(
                i as int,
                sql_frames@,
                AcquisitionType::DIAPASEF,
                window_groups_of(sql_frames@.len() as int, window_rows@),
                settings_count as int,
            ));
            return false;
        }
        i = i + 1;
    }
    true
}

/// The peaks of one frame as they were read for it.
#[derive(Debug)]
pub enum FrameData {
    /// The blob that the binary file has at the frame's offset.
    Blob(TdfBlob),
    /// What a backend for compression type 3 decoded at the frame's offset.
    Decoded { scan_offsets: Vec<usize>, tof_indices: Vec<u32>, intensities: Vec<u32> },
}

/// What a reader needs to have read for one frame.
#[derive(Debug, PartialEq, Eq, Clone, Copy)]
pub enum FrameRequest {
    /// The blob at `offset` of the binary file.
    Blob { offset: usize },
    /// A backend's decoding of the frame at `offset`, which asks for the
    /// largest scan count of the dataset.
    Decoded { offset: usize, max_scan_count: u64 },
}

/// What a reader holds.
pub struct FrameReaderView {
    /// One frame without peaks per row of the `Frames` table, in table order.
    pub frames: Seq<Frame>,
    pub acquisition: AcquisitionType,
    /// The binary offset of each frame.
    pub offsets: Seq<usize>,
    /// The window configurations, for a DIA dataset.
    pub dia_windows: Option<Seq<Arc<QuadrupoleSettings>>>,
    pub compression_type: u8,
    /// The largest scan count of the table, for compression type 3.
    pub max_scan_count: u64,
    pub is_maldi: bool,
}

impl FrameReaderView {
    /// What holds of every reader.
    pub open spec fn well_formed(self) -> bool {
        &&& self.frames.len() == self.offsets.len()
        &&& self.compression_type == 2 || self.compression_type == 3
        &&& self.dia_windows.is_some() <==> self.acquisition == AcquisitionType::DIAPASEF
        &&& forall|i: int|
            0 <= i < self.frames.len() ==> (#[trigger] self.frames[i]).has_no_peaks()
                && self.frames[i].acquisition_type == self.acquisition
    }

    /// `frames` holds, for each of the given positions in turn, what `get`
    /// gives for the position and its blob.
    pub open spec fn selected_outcome(
        self,
        positions: Seq<usize>,
        blobs: Seq<TdfBlob>,
        frames: Seq<Result<Frame, FrameReaderError>>,
    ) -> bool {
        &&& frames.len() == positions.len()
        &&& forall|j: int|
            0 <= j < positions.len() ==> self.get_outcome(
                positions[j] as int,
                blobs[positions[j] as int]@,
                #[trigger] frames[j],
            )
    }

    /// What `get` returns for the frame at `index` and the words of its
    /// blob. The position is looked at first, for every reader; a reader of
    /// compression type 3 decodes no raw blob.
    pub open spec fn get_outcome(
        self,
        index: int,
        words: Seq<u32>,
        result: Result<Frame, FrameReaderError>,
    ) -> bool {
        if index >= self.frames.len() {
            result == Err::<Frame, FrameReaderError>(FrameReaderError::IndexOutOfBounds)
        } else if self.compression_type != 2 {
            result == Err::<Frame, FrameReaderError>(FrameReaderError::TimscompressError)
        } else if !valid_blob(words) {
            result == Err::<Frame, FrameReaderError>(FrameReaderError::CorruptFrame)
        } else {
            &&& result.is_ok()
            &&& result.unwrap().same_metadata(&self.frames[index])
            &&& decodes_to(
                words,
                result.unwrap().scan_offsets@,
                result.unwrap().tof_indices@,
                result.unwrap().intensities@,
            )
            &&& result.unwrap().peaks_well_formed()
            &&& result.unwrap().scan_offsets@.len() == blob_scan_count(words) + 1
            &&& result.unwrap().tof_indices@.len() == blob_peak_count(words)
        }
    }

    /// What `get_from_compression_type_3` returns for the frame at `index`
    /// and the arrays that a backend decoded: the position is looked at
    /// first; a reader of compression type 3 attaches the arrays as they are.
    pub open spec fn attach_outcome(
        self,
        index: int,
        scan_offsets: Seq<usize>,
        tof_indices: Seq<u32>,
        intensities: Seq<u32>,
        result: Result<Frame, FrameReaderError>,
    ) -> bool {
        if index >= self.frames.len() {
            result == Err::<Frame, FrameReaderError>(FrameReaderError::IndexOutOfBounds)
        } else if self.compression_type != 3 {
            result == Err::<Frame, FrameReaderError>(FrameReaderError::TimscompressError)
        } else {
            &&& result.is_ok()
            &&& result.unwrap().same_metadata(&self.frames[index])
            &&& result.unwrap().scan_offsets@ == scan_offsets
            &&& result.unwrap().tof_indices@ == tof_indices
            &&& result.unwrap().intensities@ == intensities
        }
    }

    /// What `get_with` returns for the frame at `index` and its data.
    pub open spec fn get_with_outcome(
        self,
        index: int,
        data: FrameData,
        result: Result<Frame, FrameReaderError>,
    ) -> bool {
        match data {
            FrameData::Blob(blob) => self.get_outcome(index, blob@, result),
            FrameData::Decoded { scan_offsets, tof_indices, intensities } => self.attach_outcome(
                index,
                scan_offsets@,
                tof_indices@,
                intensities@,
                result,
            ),
        }
    }

    /// What is to be read for the frame at `index`: nothing past the last
    /// frame; else the blob at the frame's offset for compression type 2, and
    /// a backend's decoding at that offset for compression type 3.
    pub open spec fn request_for(self, index: int) -> Result<FrameRequest, FrameReaderError> {
        if index >= self.frames.len() {
            Err(FrameReaderError::IndexOutOfBounds)
        } else if self.compression_type == 2 {
            Ok(FrameRequest::Blob { offset: self.offsets[index] })
        } else {
            Ok(
                FrameRequest::Decoded {
                    offset: self.offsets[index],
                    max_scan_count: self.max_scan_count,
                },
            )
        }
    }
}

/// The error that stops the construction of a reader, if any: a compression
/// type other than 2 and 3; type 3 without a backend; type 3 without a frame.
pub open spec fn construction_error(
    compression_type: u8,
    compressed_backend: bool,
    frame_count: int,
) -> Option<FrameReaderError> {
    if compression_type != 2 && compression_type != 3 {
        Some(FrameReaderError::CompressionTypeError(compression_type))
    } else if compression_type == 3 && !compressed_backend {
        Some(FrameReaderError::TimscompressError)
    } else if compression_type == 3 && frame_count == 0 {
        Some(FrameReaderError::EmptyFrameTable)
    } else {
        None
    }
}

/// The positions of the frames of the given level, in ascending order.
pub open spec fn level_positions(frames: Seq<Frame>, level: MSLevel) -> Seq<usize>
    decreases frames.len(),
{
    if frames.len() == 0 {
        Seq::empty()
    } else if frames.last().ms_level == level {
        level_positions(frames.drop_last(), level).push((frames.len() - 1) as usize)
    } else {
        level_positions(frames.drop_last(), level)
    }
}

/// A frame that takes a window and has a window group above 0 shares the
/// configuration of that group; a frame of a dataset that is not DIA, a frame
/// that is not MS2 and a frame with window group 0 have the default settings.
pub proof fn lemma_window_assignment(
    frame: Frame,
    index: int,
    rows: Seq<SqlFrame>,
    acquisition: AcquisitionType,
    window_groups: Seq<u8>,
    quadrupole_settings: Seq<Arc<QuadrupoleSettings>>,
    maldi_map: Map<usize, SqlMaldiFrameInfo>,
)
    requires
        is_skeleton_of(
            frame,
            index,
            rows,
            acquisition,
            window_groups,
            quadrupole_settings,
            maldi_map,
        ),
    ensures
        acquisition == AcquisitionType::DIAPASEF && frame.ms_level == MSLevel::MS2
            && frame.window_group > 0 ==> frame.quadrupole_settings
            == quadrupole_settings[frame.window_group - 1],
        acquisition != AcquisitionType::DIAPASEF || frame.ms_level != MSLevel::MS2
            ==> frame.window_group == 0 && frame.quadrupole_settings.is_default(),
        frame.window_group == 0 ==> frame.quadrupole_settings.is_default(),
{
}

/// A frame has MALDI metadata exactly where a MALDI row is keyed by its id,
/// and then that of the last such row.
pub proof fn lemma_maldi_attachment(
    frame: Frame,
    index: int,
    rows: Seq<SqlFrame>,
    acquisition: AcquisitionType,
    window_groups: Seq<u8>,
    quadrupole_settings: Seq<Arc<QuadrupoleSettings>>,
    maldi_rows: Seq<SqlMaldiFrameInfo>,
)
    requires
        is_skeleton_of(
            frame,
            index,
            rows,
            acquisition,
            window_groups,
            quadrupole_settings,
            maldi_map_of(maldi_rows),
        ),
    ensures
        frame.maldi_info.is_some() <==> exists|j: int|
            0 <= j < maldi_rows.len() && (#[trigger] maldi_rows[j]).frame == frame.index,
{
    lemma_maldi_map_keys(maldi_rows, frame.index);
}

/// Where a frame has MALDI metadata, the MALDI table has a row. The other
/// way round it takes that some MALDI row is keyed by the id of a frame:
/// then the MALDI table has a row exactly if some frame has MALDI metadata.
pub proof fn lemma_is_maldi(
    frames: Seq<Frame>,
    rows: Seq<SqlFrame>,
    acquisition: AcquisitionType,
    window_groups: Seq<u8>,
    quadrupole_settings: Seq<Arc<QuadrupoleSettings>>,
    maldi_rows: Seq<SqlMaldiFrameInfo>,
)
    requires
        frames.len() == rows.len(),
        forall|i: int|
            0 <= i < rows.len() ==> is_skeleton_of(
                #[trigger] frames[i],
                i,
                rows,
                acquisition,
                window_groups,
                quadrupole_settings,
                maldi_map_of(maldi_rows),
            ),
    ensures
        (exists|i: int| 0 <= i < frames.len() && (#[trigger] frames[i]).maldi_info.is_some())
            ==> maldi_rows.len() > 0,
        (exists|j: int, i: int|
            0 <= j < maldi_rows.len() && 0 <= i < rows.len() && (#[trigger] maldi_rows[j]).frame
                == (#[trigger] rows[i]).id) ==> (maldi_rows.len() > 0 <==> exists|i: int|
            0 <= i < frames.len() && (#[trigger] frames[i]).maldi_info.is_some()),
{
    if exists|i: int| 0 <= i < frames.len() && (#[trigger] frames[i]).maldi_info.is_some() {
        let i = choose|i: int| 0 <= i < frames.len() && (#[trigger] frames[i]).maldi_info.is_some();
        lemma_maldi_map_keys(maldi_rows, rows[i].id);
    }
    if exists|j: int, i: int|
        0 <= j < maldi_rows.len() && 0 <= i < rows.len() && (#[trigger] maldi_rows[j]).frame == (
        #[trigger] rows[i]).id {
        let (j, i) = choose|j: int, i: int|
            0 <= j < maldi_rows.len() && 0 <= i < rows.len() && (#[trigger] maldi_rows[j]).frame
                == (#[trigger] rows[i]).id;
        lemma_maldi_map_keys(maldi_rows, rows[i].id);
        assert(frames[i].maldi_info.is_some());
    }
}

/// Two results of `get` for one position and one blob are the same error, or
/// frames that agree in every field.
pub proof fn lemma_get_repeatable(
    reader: FrameReaderView,
    index: int,
    words: Seq<u32>,
    first: Result<Frame, FrameReaderError>,
    second: Result<Frame, FrameReaderError>,
)
    requires
        0 <= index,
        words.len() <= usize::MAX,
        reader.get_outcome(index, words, first),
        reader.get_outcome(index, words, second),
    ensures
        first.is_ok() == second.is_ok(),
        first.is_err() ==> first == second,
        first.is_ok() ==> first.unwrap().same_metadata(&second.unwrap())
            && first.unwrap().same_peaks(&second.unwrap()),
{
    if first.is_ok() {
        lemma_decoding_unique(
            words,
            first.unwrap().scan_offsets@,
            first.unwrap().tof_indices@,
            first.unwrap().intensities@,
            second.unwrap().scan_offsets@,
            second.unwrap().tof_indices@,
            second.unwrap().intensities@,
        );
    }
}

/// Reads the frames of one acquisition.
#[derive(Debug)]
pub struct FrameReader {
    frames: Vec<Frame>,
    acquisition: AcquisitionType,
    offsets: Vec<usize>,
    dia_windows: Option<Vec<Arc<QuadrupoleSettings>>>,
    compression_type: u8,
    scan_count: u64,
    is_maldi: bool,
}

impl View for FrameReader {
    type V = FrameReaderView;

    closed spec fn view(&self) -> FrameReaderView {
        FrameReaderView {
            frames: self.frames@,
            acquisition: self.acquisition,
            offsets: self.offsets@,
            dia_windows: match self.dia_windows {
                Some(windows) => Some(windows@),
                None => None,
            },
            compression_type: self.compression_type,
            max_scan_count: self.scan_count,
            is_maldi: self.is_maldi,
        }
    }
}

impl FrameReader {
    /// Every reader is well formed.
    #[verifier::type_invariant]
    spec fn consistent(&self) -> bool {
        self@.well_formed()
    }

    /// Builds a reader from the compression type of the dataset, whether a
    /// backend for type 3 is present, and the rows of the tables. The window
    /// tables are looked at for a DIA dataset only.
    pub fn new(
        compression_type: u8,
        compressed_backend: bool,
        sql_frames: Vec<SqlFrame>,
        maldi_info: Vec<SqlMaldiFrameInfo>,
        window_group_rows: Vec<SqlWindowGroup>,
        quadrupole_settings: Vec<Arc<QuadrupoleSettings>>,
    ) -> (result: Result<FrameReader, FrameReaderError>)
        requires
            window_tables_fit(
                sql_frames@,
                window_group_rows@,
                quadrupole_settings@.len() as int,
            ),
        ensures
            match result {
                Ok(reader) => {
                    &&& construction_error(
                        compression_type,
                        compressed_backend,
                        sql_frames@.len() as int,
                    ).is_none()
                    &&& reader@.well_formed()
                    &&& reader@.compression_type == compression_type
                    &&& reader@.acquisition == acquisition_of(sql_frames@)
                    &&& reader@.is_maldi == (maldi_info@.len() > 0)
                    &&& reader@.dia_windows == (if acquisition_of(sql_frames@)
                        == AcquisitionType::DIAPASEF {
                        Some(quadrupole_settings@)
                    } else {
                        None
                    })
                    &&& if compression_type == 3 {
                        is_max_scan_count(sql_frames@, reader@.max_scan_count)
                    } else {
                        reader@.max_scan_count == 0
                    }
                    &&& reader@.frames.len() == sql_frames@.len()
                    &&& forall|i: int|
                        0 <= i < sql_frames@.len() ==> reader@.offsets[i]
                            == (#[trigger] sql_frames@[i]).binary_offset
                    &&& forall|i: int|
                        0 <= i < sql_frames@.len() ==> is_skeleton_of(
                            #[trigger] reader@.frames[i],
                            i,
                            sql_frames@,
                            acquisition_of(sql_frames@),
                            window_groups_of(sql_frames@.len() as int, window_group_rows@),
                            quadrupole_settings@,
                            maldi_map_of(maldi_info@),
                        )
                },
                Err(e) => Some(e) == construction_error(
                    compression_type,
                    compressed_backend,
                    sql_frames@.len() as int,
                ),
            },
    {
        if compression_type != 2 && compression_type != 3 {
            return Err(FrameReaderError::CompressionTypeError(compression_type));
        }
        if compression_type == 3 && !compressed_backend {
            return Err(FrameReaderError::TimscompressError);
        }
        let is_maldi: bool = maldi_info.len() > 0;
        let maldi_map = build_maldi_map(&maldi_info);
        let acquisition = detect_acquisition(&sql_frames);
        let frame_count: usize = sql_frames.len();
        let is_dia: bool = acquisition == AcquisitionType::DIAPASEF;
        let window_groups: Vec<u8> = if is_dia {
            assign_window_groups(frame_count, &window_group_rows)
        } else {
            assign_window_groups(frame_count, &Vec::new())
        };
        proof {
            assert forall|i: int| 0 <= i < sql_frames@.len() implies #[trigger] window_known(
                i,
                sql_frames@,
                acquisition,
                window_groups@,
                quadrupole_settings@.len() as int,
            ) by {
                if is_dia {
                    assert(window_known(
                        i,
                        sql_frames@,
                        AcquisitionType::DIAPASEF,
                        window_groups_of(sql_frames@.len() as int, window_group_rows@),
                        quadrupole_settings@.len() as int,
                    ));
                }
            }
        }
        let frames: Vec<Frame> = build_skeletons(
            &sql_frames,
            acquisition,
            &window_groups,
            &quadrupole_settings,
            &maldi_map,
        );
        let mut offsets: Vec<usize> = Vec::new();
        let mut index: usize = 0;
        while index < frame_count
            invariant
                index <= frame_count,
                frame_count == sql_frames@.len(),
                offsets@.len() == index,
                forall|i: int|
                    0 <= i < index ==> offsets@[i] == (#[trigger] sql_frames@[i]).binary_offset,
            decreases frame_count - index,
        {
            offsets.push(sql_frames[index].binary_offset);
            index = index + 1;
        }
        let scan_count: u64 = if compression_type == 3 {
            match max_scan_count(&sql_frames) {
                Some(max) => max,
                None => {
                    return Err(FrameReaderError::EmptyFrameTable);
                },
            }
        } else {
            0
        };
        let dia_windows: Option<Vec<Arc<QuadrupoleSettings>>> = if is_dia {
            Some(quadrupole_settings)
        } else {
            None
        };
        Ok(
            FrameReader {
                frames,
                acquisition,
                offsets,
                dia_windows,
                compression_type,
                scan_count,
                is_maldi,
            },
        )
    }

    /// The number of frames.
    pub fn len(&self) -> (count: usize)
        ensures
            count == self@.frames.len(),
            self@.well_formed(),
    {
        proof {
            use_type_invariant(self);
        }
        self.frames.len()
    }

    /// The binary offset of the frame at position `index`.
    pub fn get_binary_offset(&self, index: usize) -> (offset: usize)
        requires
            index < self@.frames.len(),
        ensures
            offset == self@.offsets[index as int],
    {
        proof {
            use_type_invariant(self);
        }
        self.offsets[index]
    }

    pub fn get_acquisition(&self) -> (acquisition: AcquisitionType)
        ensures
            acquisition == self@.acquisition,
    {
        self.acquisition
    }

    /// Whether the dataset holds MALDI imaging data.
    pub fn is_maldi(&self) -> (maldi: bool)
        ensures
            maldi == self@.is_maldi,
    {
        self.is_maldi
    }

    /// The compression type of the dataset.
    pub fn get_compression_type(&self) -> (compression_type: u8)
        ensures
            compression_type == self@.compression_type,
    {
        self.compression_type
    }

    /// The largest scan count of the dataset, which a backend for
    /// compression type 3 asks for; 0 for type 2.
    pub fn get_max_scan_count(&self) -> (max: u64)
        ensures
            max == self@.max_scan_count,
    {
        self.scan_count
    }

    /// The window configurations of a DIA dataset, shared with the reader.
    pub fn get_dia_windows(&self) -> (windows: Option<Vec<Arc<QuadrupoleSettings>>>)
        ensures
            match windows {
                Some(handles) => self@.dia_windows == Some(handles@),
                None => self@.dia_windows.is_none(),
            },
    {
        match &self.dia_windows {
            Some(shared) => {
                let mut handles: Vec<Arc<QuadrupoleSettings>> = Vec::new();
                let mut i: usize = 0;
                while i < shared.len()
                    invariant
                        i <= shared.len(),
                        handles@ =~= shared@.take(i as int),
                    decreases shared.len() - i,
                {
                    handles.push(share_settings(&shared[i]));
                    i = i + 1;
                }
                assert(handles@ =~= shared@);
                Some(handles)
            },
            None => None,
        }
    }

    /// A copy of the frame at position `index`, without peaks.
    pub fn get_frame_without_coordinates(&self, index: usize) -> (result: Result<
        Frame,
        FrameReaderError,
    >)
        ensures
            match result {
                Ok(frame) => {
                    &&& index < self@.frames.len()
                    &&& frame.same_metadata(&self@.frames[index as int])
                    &&& frame.has_no_peaks()
                },
                Err(e) => e == FrameReaderError::IndexOutOfBounds && index >= self@.frames.len(),
            },
    {
        proof {
            use_type_invariant(self);
        }
        if index < self.frames.len() {
            Ok(self.frames[index].clone())
        } else {
            Err(FrameReaderError::IndexOutOfBounds)
        }
    }

    /// The frame at position `index` (the position in the table, not the
    /// frame id), with the peaks that `blob` holds. `blob` is what the binary
    /// file has at the frame's offset. A position at or past the number of
    /// frames gives `IndexOutOfBounds`, whatever the reader and the blob. A
    /// reader of compression type 3 decodes no raw blob and answers
    /// `TimscompressError`. Nothing is kept between calls.
    pub fn get(&self, index: usize, blob: &TdfBlob) -> (result: Result<Frame, FrameReaderError>)
        ensures
            self@.get_outcome(index as int, blob@, result),
            result == Err::<Frame, FrameReaderError>(FrameReaderError::IndexOutOfBounds) <==> index
                >= self@.frames.len(),
    {
        proof {
            use_type_invariant(self);
        }
        if self.compression_type == 2 {
            self.get_from_compression_type_2(index, blob)
        } else if index >= self.frames.len() {
            Err(FrameReaderError::IndexOutOfBounds)
        } else {
            Err(FrameReaderError::TimscompressError)
        }
    }

    /// What is to be read before the frame at position `index` can be had.
    pub fn frame_request(&self, index: usize) -> (result: Result<FrameRequest, FrameReaderError>)
        ensures
            result == self@.request_for(index as int),
    {
        proof {
            use_type_invariant(self);
        }
        if index >= self.frames.len() {
            Err(FrameReaderError::IndexOutOfBounds)
        } else if self.compression_type == 2 {
            Ok(FrameRequest::Blob { offset: self.offsets[index] })
        } else {
            Ok(FrameRequest::Decoded { offset: self.offsets[index], max_scan_count: self.scan_count })
        }
    }

    /// The frame at position `index`, with the peaks that `data` holds: a
    /// blob is decoded by a reader of compression type 2, decoded arrays are
    /// attached by a reader of compression type 3. A position at or past the
    /// number of frames is refused first, whatever the data.
    pub fn get_with(&self, index: usize, data: FrameData) -> (result: Result<
        Frame,
        FrameReaderError,
    >)
        ensures
            self@.get_with_outcome(index as int, data, result),
            result == Err::<Frame, FrameReaderError>(FrameReaderError::IndexOutOfBounds) <==> index
                >= self@.frames.len(),
    {
        match data {
            FrameData::Blob(blob) => self.get(index, &blob),
            FrameData::Decoded { scan_offsets, tof_indices, intensities } => {
                self.get_from_compression_type_3(index, scan_offsets, tof_indices, intensities)
            },
        }
    }

    /// Decodes a blob of compression type 2 into the frame at `index`.
    pub fn get_from_compression_type_2(&self, index: usize, blob: &TdfBlob) -> (result: Result<
        Frame,
        FrameReaderError,
    >)
        requires
            self@.compression_type == 2,
        ensures
            self@.get_outcome(index as int, blob@, result),
    {
        let mut frame: Frame = match self.get_frame_without_coordinates(index) {
            Ok(frame) => frame,
            Err(e) => {
                return Err(e);
            },
        };
        let scan_count: usize = match blob.get(0) {
            Some(word) => word as usize,
            None => {
                return Err(FrameReaderError::CorruptFrame);
            },
        };
        let word_count: usize = blob.len();
        if scan_count == 0 || scan_count > word_count {
            return Err(FrameReaderError::CorruptFrame);
        }
        if (word_count - scan_count) % 2 != 0 {
            return Err(FrameReaderError::CorruptFrame);
        }
        let peak_count: usize = (word_count - scan_count) / 2;
        let scan_offsets: Vec<usize> = match read_scan_offsets(scan_count, peak_count, blob) {
            Ok(offsets) => offsets,
            Err(e) => {
                return Err(e);
            },
        };
        proof {
            lemma_offset_at_monotone(blob@, 0, scan_count - 1);
            assert(scan_offsets@[scan_count - 1] == offset_at(blob@, scan_count - 1));
        }
        if scan_offsets[scan_count - 1] > peak_count {
            return Err(FrameReaderError::CorruptFrame);
        }
        proof {
            lemma_scan_offsets_well_formed(blob@, scan_count as int, peak_count as int);
        }
        let intensities: Vec<u32> = match read_intensities(scan_count, peak_count, blob) {
            Ok(intensities) => intensities,
            Err(e) => {
                return Err(e);
            },
        };
        proof {
            lemma_decodable_iff_sums_in_range(
                blob@,
                scan_count as int,
                peak_count as int,
                scan_offsets@,
            );
        }
        let tof_indices: Vec<u32> = match read_tof_indices(
            scan_count,
            peak_count,
            blob,
            &scan_offsets,
        ) {
            Ok(tof_indices) => tof_indices,
            Err(e) => {
                return Err(e);
            },
        };
        proof {
            lemma_all_tofs_by_peak(
                blob@,
                scan_count as int,
                peak_count as int,
                scan_offsets@,
                scan_count as int,
            );
        }
        frame.scan_offsets = scan_offsets;
        frame.intensities = intensities;
        frame.tof_indices = tof_indices;
        Ok(frame)
    }

    /// Attaches peaks that a backend for compression type 3 decoded to the
    /// frame at `index`. The arrays are taken as they are. The position is
    /// looked at first; a reader of another compression type then refuses.
    pub fn get_from_compression_type_3(
        &self,
        index: usize,
        scan_offsets: Vec<usize>,
        tof_indices: Vec<u32>,
        intensities: Vec<u32>,
    ) -> (result: Result<Frame, FrameReaderError>)
        ensures
            self@.attach_outcome(
                index as int,
                scan_offsets@,
                tof_indices@,
                intensities@,
                result,
            ),
            result == Err::<Frame, FrameReaderError>(FrameReaderError::IndexOutOfBounds) <==> index
                >= self@.frames.len(),
    {
        let mut frame: Frame = match self.get_frame_without_coordinates(index) {
            Ok(frame) => frame,
            Err(e) => {
                return Err(e);
            },
        };
        if self.compression_type != 3 {
            return Err(FrameReaderError::TimscompressError);
        }
        frame.tof_indices = tof_indices;
        frame.intensities = intensities;
        frame.scan_offsets = scan_offsets;
        Ok(frame)
    }
    /// The positions of the frames that pass `predicate`, in ascending
    /// order. The predicate sees the frames without peaks; nothing is decoded.
    pub fn filter<F: Fn(&Frame) -> bool>(&self, predicate: F) -> (positions: Vec<usize>)
        requires
            forall|i: int|
                0 <= i < self@.frames.len() ==> call_requires(
                    predicate,
                    (&#[trigger] self@.frames[i],),
                ),
        ensures
            forall|j: int|
                0 <= j < positions@.len() ==> (#[trigger] positions@[j]) < self@.frames.len()
                    && call_ensures(predicate, (&self@.frames[positions@[j] as int],), true),
            forall|j: int, k: int|
                0 <= j < k < positions@.len() ==> (#[trigger] positions@[j])
                    < (#[trigger] positions@[k]),
            forall|i: int|
                0 <= i < self@.frames.len() ==> positions@.contains(i as usize) || call_ensures(
                    predicate,
                    (&#[trigger] self@.frames[i],),
                    false,
                ),
    {
        let mut positions: Vec<usize> = Vec::new();
        let mut i: usize = 0;
        while i < self.frames.len()
            invariant
                i <= self.frames@.len(),
                forall|k: int|
                    0 <= k < self@.frames.len() ==> call_requires(
                        predicate,
                        (&#[trigger] self@.frames[k],),
                    ),
                forall|j: int|
                    0 <= j < positions@.len() ==> (#[trigger] positions@[j]) < i && call_ensures(
                        predicate,
                        (&self@.frames[positions@[j] as int],),
                        true,
                    ),
                forall|j: int, k: int|
                    0 <= j < k < positions@.len() ==> (#[trigger] positions@[j])
                        < (#[trigger] positions@[k]),
                forall|k: int|
                    0 <= k < i ==> positions@.contains(k as usize) || call_ensures(
                        predicate,
                        (&#[trigger] self@.frames[k],),
                        false,
                    ),
            decreases self.frames@.len() - i,
        {
            let ghost before = positions@;
            assert(self@.frames[i as int] == self.frames@[i as int]);
            let passes: bool = predicate(&self.frames[i]);
            if passes {
                positions.push(i);
                assert(positions@[before.len() as int] == i);
                assert forall|x: usize| #[trigger] before.contains(x) implies positions@.contains(
                    x,
                ) by {
                    let j = choose|j: int| 0 <= j < before.len() && before[j] == x;
                    assert(positions@[j] == x);
                }
            }
            i = i + 1;
        }
        positions
    }

    /// Whether the frame at `position` passes `predicate`.
    fn passes<F: Fn(&Frame) -> bool>(&self, position: usize, predicate: &F) -> (pass: bool)
        requires
            position < self@.frames.len(),
            call_requires(*predicate, (&self@.frames[position as int],)),
        ensures
            call_ensures(*predicate, (&self@.frames[position as int],), pass),
    {
        predicate(&self.frames[position])
    }

    /// Rayon's `into_par_iter`, `filter` and `collect` over the positions
    /// `0..len`: the predicate is asked once for each position, on rayon's
    /// worker threads, and the positions for which it said yes are collected
    /// in ascending order, as a sequential `filter` and `collect` would.
    #[verifier::external_body]
    fn passing_positions<F: Fn(&Frame) -> bool + Sync + Send>(&self, predicate: &F) -> (positions:
        Vec<usize>)
        requires
            forall|i: int|
                0 <= i < self@.frames.len() ==> call_requires(
                    *predicate,
                    (&#[trigger] self@.frames[i],),
                ),
        ensures
            forall|j: int|
                0 <= j < positions@.len() ==> (#[trigger] positions@[j]) < self@.frames.len()
                    && call_ensures(*predicate, (&self@.frames[positions@[j] as int],), true),
            forall|j: int, k: int|
                0 <= j < k < positions@.len() ==> (#[trigger] positions@[j])
                    < (#[trigger] positions@[k]),
            forall|i: int|
                0 <= i < self@.frames.len() ==> positions@.contains(i as usize) || call_ensures(
                    *predicate,
                    (&#[trigger] self@.frames[i],),
                    false,
                ),
    {
        (0..self.frames.len())
            .into_par_iter()
            .filter(|position| self.passes(*position, predicate))
            .collect()
    }

    /// The positions of the frames that pass `predicate`, in ascending
    /// order, found on several threads. The predicate sees the frames
    /// without peaks, in any order and on any thread.
    pub fn parallel_filter<F: Fn(&Frame) -> bool + Sync + Send>(&self, predicate: F) -> (positions:
        Vec<usize>)
        requires
            forall|i: int|
                0 <= i < self@.frames.len() ==> call_requires(
                    predicate,
                    (&#[trigger] self@.frames[i],),
                ),
        ensures
            forall|j: int|
                0 <= j < positions@.len() ==> (#[trigger] positions@[j]) < self@.frames.len()
                    && call_ensures(predicate, (&self@.frames[positions@[j] as int],), true),
            forall|j: int, k: int|
                0 <= j < k < positions@.len() ==> (#[trigger] positions@[j])
                    < (#[trigger] positions@[k]),
            forall|i: int|
                0 <= i < self@.frames.len() ==> positions@.contains(i as usize) || call_ensures(
                    predicate,
                    (&#[trigger] self@.frames[i],),
                    false,
                ),
    {
        self.passing_positions(&predicate)
    }

    /// The positions of the frames of the given level, in ascending order.
    pub fn positions_of_level(&self, level: MSLevel) -> (positions: Vec<usize>)
        ensures
            positions@ == level_positions(self@.frames, level),
            forall|j: int|
                0 <= j < positions@.len() ==> (#[trigger] positions@[j]) < self@.frames.len(),
    {
        let mut positions: Vec<usize> = Vec::new();
        let mut i: usize = 0;
        while i < self.frames.len()
            invariant
                i <= self.frames@.len(),
                positions@ == level_positions(self.frames@.take(i as int), level),
                forall|j: int| 0 <= j < positions@.len() ==> (#[trigger] positions@[j]) < i,
            decreases self.frames@.len() - i,
        {
            assert(self.frames@.take(i + 1).drop_last() =~= self.frames@.take(i as int));
            assert(self.frames@.take(i + 1).last() == self.frames@[i as int]);
            if self.frames[i].ms_level == level {
                positions.push(i);
            }
            i = i + 1;
        }
        assert(self.frames@.take(i as int) =~= self.frames@);
        positions
    }

    /// The frames at the given positions, each decoded from the blob at its
    /// position in `blobs`.
    fn get_selected(&self, positions: &Vec<usize>, blobs: &Vec<TdfBlob>) -> (frames: Vec<
        Result<Frame, FrameReaderError>,
    >)
        requires
            forall|j: int| 0 <= j < positions@.len() ==> (#[trigger] positions@[j]) < blobs@.len(),
        ensures
            frames@.len() == positions@.len(),
            forall|j: int|
                0 <= j < positions@.len() ==> self@.get_outcome(
                    positions@[j] as int,
                    blobs@[positions@[j] as int]@,
                    #[trigger] frames@[j],
                ),
    {
        let mut frames: Vec<Result<Frame, FrameReaderError>> = Vec::new();
        let mut j: usize = 0;
        while j < positions.len()
            invariant
                forall|k: int|
                    0 <= k < positions@.len() ==> (#[trigger] positions@[k]) < blobs@.len(),
                j <= positions@.len(),
                frames@.len() == j,
                forall|k: int|
                    0 <= k < j ==> self@.get_outcome(
                        positions@[k] as int,
                        blobs@[positions@[k] as int]@,
                        #[trigger] frames@[k],
                    ),
            decreases positions@.len() - j,
        {
            let position: usize = positions[j];
            let frame = self.get(position, &blobs[position]);
            frames.push(frame);
            j = j + 1;
        }
        frames
    }

    /// Every frame, in table order. `blobs` holds the blob of each frame, in
    /// table order; entry `i` of the result is what `get` gives for position
    /// `i` and blob `i`.
    pub fn get_all(&self, blobs: &Vec<TdfBlob>) -> (frames: Vec<Result<Frame, FrameReaderError>>)
        requires
            blobs@.len() == self@.frames.len(),
        ensures
            frames@.len() == self@.frames.len(),
            forall|i: int|
                0 <= i < self@.frames.len() ==> self@.get_outcome(
                    i,
                    blobs@[i]@,
                    #[trigger] frames@[i],
                ),
    {
        let mut positions: Vec<usize> = Vec::new();
        let mut i: usize = 0;
        while i < self.frames.len()
            invariant
                i <= self.frames@.len(),
                positions@.len() == i,
                forall|j: int| 0 <= j < i ==> #[trigger] positions@[j] == j,
            decreases self.frames@.len() - i,
        {
            positions.push(i);
            i = i + 1;
        }
        self.get_selected(&positions, blobs)
    }

    /// The MS1 frames, in table order. `blobs` holds the blob of each frame
    /// of the table, in table order.
    pub fn get_all_ms1(&self, blobs: &Vec<TdfBlob>) -> (frames: Vec<
        Result<Frame, FrameReaderError>,
    >)
        requires
            blobs@.len() == self@.frames.len(),
        ensures
            self@.selected_outcome(level_positions(self@.frames, MSLevel::MS1), blobs@, frames@),
    {
        let positions = self.positions_of_level(MSLevel::MS1);
        self.get_selected(&positions, blobs)
    }

    /// The MS2 frames, in table order. `blobs` holds the blob of each frame
    /// of the table, in table order.
    pub fn get_all_ms2(&self, blobs: &Vec<TdfBlob>) -> (frames: Vec<
        Result<Frame, FrameReaderError>,
    >)
        requires
            blobs@.len() == self@.frames.len(),
        ensures
            self@.selected_outcome(level_positions(self@.frames, MSLevel::MS2), blobs@, frames@),
    {
        let positions = self.positions_of_level(MSLevel::MS2);
        self.get_selected(&positions, blobs)
    }
}

} // verus!
