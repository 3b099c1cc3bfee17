use tims_frames::frame_reader::{FrameData, FrameReader, FrameReaderError, FrameRequest};
use tims_frames::ms_data::MSLevel;
use tims_frames::sql_rows::SqlFrame;
use tims_frames::tdf_blob::{read_intensities, read_scan_offsets, read_tof_indices, TdfBlob};

fn reader_of(msms_types: &[u8]) -> FrameReader {
    let mut rows = Vec::new();
    for (k, msms_type) in msms_types.iter().enumerate() {
        rows.push(SqlFrame {
            id: k + 1,
            msms_type: *msms_type,
            rt: (0.5 * k as f64).to_bits(),
            accumulation_time: 100.0f64.to_bits(),
            binary_offset: 64 * k,
            ..Default::default()
        });
    }
    FrameReader::new(2, false, rows, vec![], vec![], vec![]).unwrap()
}

fn blob(words: &[u32]) -> TdfBlob {
    TdfBlob::new(words.to_vec())
}

#[test]
fn minimal_blob() {
    let reader = reader_of(&[0]);
    let frame = reader.get(0, &blob(&[1, 3, 7])).unwrap();
    assert_eq!(frame.scan_offsets, vec![0, 1]);
    assert_eq!(frame.intensities, vec![7]);
    assert_eq!(frame.tof_indices, vec![2]);
    assert_eq!(frame.index, 1);
    assert_eq!(frame.ms_level, MSLevel::MS1);
}

#[test]
fn two_scan_blob() {
    let reader = reader_of(&[0]);
    let frame = reader.get(0, &blob(&[2, 4, 5, 9, 3, 11])).unwrap();
    assert_eq!(frame.scan_offsets, vec![0, 2, 2]);
    assert_eq!(frame.tof_indices, vec![4, 7]);
    assert_eq!(frame.intensities, vec![9, 11]);
}

#[test]
fn running_sum_restarts_at_each_scan() {
    // Three scans of 2, 1 and 2 peaks.
    let words = [3, 4, 2, 10, 100, 5, 101, 7, 102, 1, 103, 1, 104];
    let reader = reader_of(&[8]);
    let frame = reader.get(0, &blob(&words)).unwrap();
    assert_eq!(frame.scan_offsets, vec![0, 2, 3, 5]);
    assert_eq!(frame.tof_indices, vec![9, 14, 6, 0, 1]);
    assert_eq!(frame.intensities, vec![100, 101, 102, 103, 104]);
    assert_eq!(frame.tof_indices.len(), frame.intensities.len());
    assert_eq!(*frame.scan_offsets.last().unwrap(), frame.tof_indices.len());
    for k in 0..frame.scan_offsets.len() - 1 {
        assert!(frame.scan_offsets[k] <= frame.scan_offsets[k + 1]);
        for p in frame.scan_offsets[k] + 1..frame.scan_offsets[k + 1] {
            assert!(frame.tof_indices[p - 1] < frame.tof_indices[p]);
        }
    }
}

#[test]
fn frame_without_peaks() {
    let reader = reader_of(&[0]);
    let frame = reader.get(0, &blob(&[1])).unwrap();
    assert_eq!(frame.scan_offsets, vec![0, 0]);
    assert!(frame.tof_indices.is_empty());
    assert!(frame.intensities.is_empty());
    let frame = reader.get(0, &blob(&[3, 0, 0])).unwrap();
    assert_eq!(frame.scan_offsets, vec![0, 0, 0, 0]);
}

#[test]
fn size_words_are_halved_rounding_down() {
    let reader = reader_of(&[0]);
    let frame = reader.get(0, &blob(&[2, 3, 6, 1, 2, 2])).unwrap();
    assert_eq!(frame.scan_offsets, vec![0, 1, 2]);
    assert_eq!(frame.tof_indices, vec![5, 1]);
    assert_eq!(frame.intensities, vec![1, 2]);
}

#[test]
fn corrupt_blobs_are_refused() {
    let reader = reader_of(&[0]);
    let corrupt = Some(FrameReaderError::CorruptFrame);
    // No header word.
    assert_eq!(reader.get(0, &blob(&[])).err(), corrupt);
    // An odd number of peak words.
    assert_eq!(reader.get(0, &blob(&[1, 3])).err(), corrupt);
    assert_eq!(reader.get(0, &blob(&[2, 2, 5, 9, 3])).err(), corrupt);
    // No scan at all.
    assert_eq!(reader.get(0, &blob(&[0])).err(), corrupt);
    assert_eq!(reader.get(0, &blob(&[0, 3, 7])).err(), corrupt);
    // More scans than words.
    assert_eq!(reader.get(0, &blob(&[5, 0, 0])).err(), corrupt);
    // Sizes that claim more peaks than the blob holds.
    assert_eq!(reader.get(0, &blob(&[2, 6, 5, 9, 3, 11])).err(), corrupt);
    // A first delta of 0 would give bin -1.
    assert_eq!(reader.get(0, &blob(&[1, 0, 7])).err(), corrupt);
    // A running sum past 32 bits.
    assert_eq!(reader.get(0, &blob(&[1, u32::MAX, 7, 1, 8])).err(), corrupt);
}

#[test]
fn largest_bin_is_kept() {
    let reader = reader_of(&[0]);
    let frame = reader.get(0, &blob(&[1, u32::MAX, 7])).unwrap();
    assert_eq!(frame.tof_indices, vec![u32::MAX - 1]);
    let frame = reader.get(0, &blob(&[1, u32::MAX - 1, 7, 1, 8])).unwrap();
    assert_eq!(frame.tof_indices, vec![u32::MAX - 2, u32::MAX - 1]);
}

#[test]
fn zero_delta_repeats_a_bin() {
    let reader = reader_of(&[0]);
    let frame = reader.get(0, &blob(&[1, 3, 7, 0, 9])).unwrap();
    assert_eq!(frame.tof_indices, vec![2, 2]);
    assert_eq!(frame.intensities, vec![7, 9]);
}

#[test]
fn get_past_the_end_is_out_of_bounds() {
    let reader = reader_of(&[0, 8]);
    assert_eq!(reader.len(), 2);
    assert_eq!(
        reader.get(reader.len(), &blob(&[1, 3, 7])).err(),
        Some(FrameReaderError::IndexOutOfBounds)
    );
    assert_eq!(
        reader.get_frame_without_coordinates(2).err(),
        Some(FrameReaderError::IndexOutOfBounds)
    );
    // The position is looked at before the blob.
    assert_eq!(reader.get(5, &blob(&[])).err(), Some(FrameReaderError::IndexOutOfBounds));
}

#[test]
fn get_goes_by_position_not_by_id() {
    let reader = reader_of(&[0, 8]);
    let frame = reader.get(1, &blob(&[1, 3, 7])).unwrap();
    assert_eq!(frame.index, 2);
    assert_eq!(frame.ms_level, MSLevel::MS2);
    assert_eq!(f64::from_bits(frame.rt_in_seconds), 0.5);
}

#[test]
fn repeated_get_gives_equal_frames() {
    let reader = reader_of(&[0, 8]);
    let words = blob(&[2, 4, 5, 9, 3, 11]);
    let first = reader.get(1, &words).unwrap();
    let second = reader.get(1, &words).unwrap();
    assert_eq!(first, second);
    // The stored frame stays without peaks.
    assert!(reader.get_frame_without_coordinates(1).unwrap().tof_indices.is_empty());
}

#[test]
fn type_3_reader_takes_decoded_arrays() {
    let rows = vec![SqlFrame { id: 1, msms_type: 0, scan_count: 2, ..Default::default() }];
    let reader = FrameReader::new(3, true, rows, vec![], vec![], vec![]).unwrap();
    let frame = reader
        .get_from_compression_type_3(0, vec![0, 1, 2], vec![10, 20], vec![5, 6])
        .unwrap();
    assert_eq!(frame.scan_offsets, vec![0, 1, 2]);
    assert_eq!(frame.tof_indices, vec![10, 20]);
    assert_eq!(frame.intensities, vec![5, 6]);
    assert_eq!(frame.index, 1);
    assert_eq!(
        reader.get_from_compression_type_3(1, vec![0], vec![], vec![]).err(),
        Some(FrameReaderError::IndexOutOfBounds)
    );
    // A raw blob is not what a type-3 reader decodes.
    assert_eq!(
        reader.get(0, &blob(&[1, 3, 7])).err(),
        Some(FrameReaderError::TimscompressError)
    );
    let plain = reader_of(&[0]);
    assert_eq!(
        plain.get_from_compression_type_3(0, vec![0], vec![], vec![]).err(),
        Some(FrameReaderError::TimscompressError)
    );
}

#[test]
fn position_is_tested_first_by_every_reader() {
    let rows = vec![SqlFrame { id: 1, msms_type: 0, scan_count: 2, ..Default::default() }];
    let compressed = FrameReader::new(3, true, rows, vec![], vec![], vec![]).unwrap();
    let out_of_bounds = Some(FrameReaderError::IndexOutOfBounds);
    assert_eq!(compressed.len(), 1);
    assert_eq!(compressed.get(compressed.len(), &blob(&[1, 3, 7])).err(), out_of_bounds);
    assert_eq!(compressed.get(7, &blob(&[])).err(), out_of_bounds);
    assert_eq!(
        compressed.get_with(1, FrameData::Blob(blob(&[1, 3, 7]))).err(),
        out_of_bounds
    );
    assert_eq!(
        compressed
            .get_with(
                1,
                FrameData::Decoded { scan_offsets: vec![0], tof_indices: vec![], intensities: vec![] }
            )
            .err(),
        out_of_bounds
    );
    assert_eq!(compressed.frame_request(1).err(), out_of_bounds);
    let plain = reader_of(&[0, 8]);
    assert_eq!(plain.get_from_compression_type_3(2, vec![0], vec![], vec![]).err(), out_of_bounds);
    assert_eq!(
        plain
            .get_with(
                2,
                FrameData::Decoded { scan_offsets: vec![0], tof_indices: vec![], intensities: vec![] }
            )
            .err(),
        out_of_bounds
    );
    assert_eq!(plain.get_with(2, FrameData::Blob(blob(&[1, 3, 7]))).err(), out_of_bounds);
    assert_eq!(plain.frame_request(2).err(), out_of_bounds);
}

#[test]
fn request_names_what_to_read() {
    let plain = reader_of(&[0, 8]);
    assert_eq!(plain.frame_request(0), Ok(FrameRequest::Blob { offset: 0 }));
    assert_eq!(plain.frame_request(1), Ok(FrameRequest::Blob { offset: 64 }));
    let rows = vec![
        SqlFrame { id: 1, scan_count: 2, binary_offset: 10, ..Default::default() },
        SqlFrame { id: 2, scan_count: 9, binary_offset: 90, ..Default::default() },
    ];
    let compressed = FrameReader::new(3, true, rows, vec![], vec![], vec![]).unwrap();
    assert_eq!(
        compressed.frame_request(0),
        Ok(FrameRequest::Decoded { offset: 10, max_scan_count: 9 })
    );
    assert_eq!(
        compressed.frame_request(1),
        Ok(FrameRequest::Decoded { offset: 90, max_scan_count: 9 })
    );
}

#[test]
fn get_with_takes_either_kind_of_data() {
    let plain = reader_of(&[0, 8]);
    let frame = plain.get_with(1, FrameData::Blob(blob(&[2, 4, 5, 9, 3, 11]))).unwrap();
    assert_eq!(frame.index, 2);
    assert_eq!(frame.scan_offsets, vec![0, 2, 2]);
    assert_eq!(frame.tof_indices, vec![4, 7]);
    assert_eq!(frame.intensities, vec![9, 11]);
    assert_eq!(
        plain.get_with(1, FrameData::Blob(blob(&[1, 3]))).err(),
        Some(FrameReaderError::CorruptFrame)
    );
    assert_eq!(
        plain
            .get_with(
                0,
                FrameData::Decoded {
                    scan_offsets: vec![0, 1],
                    tof_indices: vec![5],
                    intensities: vec![6]
                }
            )
            .err(),
        Some(FrameReaderError::TimscompressError)
    );
    let rows = vec![SqlFrame { id: 4, msms_type: 8, scan_count: 2, ..Default::default() }];
    let compressed = FrameReader::new(3, true, rows, vec![], vec![], vec![]).unwrap();
    let frame = compressed
        .get_with(
            0,
            FrameData::Decoded {
                scan_offsets: vec![0, 1, 2],
                tof_indices: vec![10, 20],
                intensities: vec![5, 6],
            },
        )
        .unwrap();
    assert_eq!(frame.index, 4);
    assert_eq!(frame.ms_level, MSLevel::MS2);
    assert_eq!(frame.scan_offsets, vec![0, 1, 2]);
    assert_eq!(frame.tof_indices, vec![10, 20]);
    assert_eq!(frame.intensities, vec![5, 6]);
    assert_eq!(
        compressed.get_with(0, FrameData::Blob(blob(&[1, 3, 7]))).err(),
        Some(FrameReaderError::TimscompressError)
    );
}

#[test]
fn bulk_reads_of_a_type_3_reader_refuse_blobs() {
    let rows = vec![SqlFrame { id: 1, msms_type: 0, scan_count: 2, ..Default::default() }];
    let compressed = FrameReader::new(3, true, rows, vec![], vec![], vec![]).unwrap();
    let all = compressed.get_all(&vec![blob(&[1, 3, 7])]);
    assert_eq!(all, vec![Err(FrameReaderError::TimscompressError)]);
}

#[test]
fn blob_word_access() {
    let words = blob(&[4, 5, 6]);
    assert_eq!(words.len(), 3);
    assert!(!words.is_empty());
    assert_eq!(words.get(0), Some(4));
    assert_eq!(words.get(2), Some(6));
    assert_eq!(words.get(3), None);
    assert!(blob(&[]).is_empty());
}

#[test]
fn scan_offsets_alone() {
    let words = blob(&[3, 4, 2, 0, 0]);
    assert_eq!(read_scan_offsets(3, 5, &words).unwrap(), vec![0, 2, 3, 5]);
    assert_eq!(read_scan_offsets(1, 9, &blob(&[])).unwrap(), vec![0, 9]);
    // The sizes are taken as they are, also past the peak count.
    assert_eq!(read_scan_offsets(3, 2, &words).unwrap(), vec![0, 2, 3, 2]);
    assert_eq!(read_scan_offsets(7, 5, &words).err(), Some(FrameReaderError::CorruptFrame));
    // Whatever the size words hold, as many offsets come out as scans and one.
    let large = blob(&[3, u32::MAX, u32::MAX]);
    assert_eq!(
        read_scan_offsets(3, 0, &large).unwrap(),
        vec![0, 0x7fff_ffff, 0xffff_fffe, 0]
    );
}

#[test]
fn intensities_alone() {
    let words = blob(&[1, 3, 7, 2, 8]);
    assert_eq!(read_intensities(1, 2, &words).unwrap(), vec![7, 8]);
    assert_eq!(read_intensities(1, 0, &words).unwrap(), Vec::<u32>::new());
    assert_eq!(read_intensities(9, 0, &words).unwrap(), Vec::<u32>::new());
    assert_eq!(read_intensities(1, 3, &words).err(), Some(FrameReaderError::CorruptFrame));
    assert_eq!(read_intensities(usize::MAX, 1, &words).err(), Some(FrameReaderError::CorruptFrame));
}

#[test]
fn tof_indices_alone() {
    let words = blob(&[2, 2, 3, 7, 2, 8]);
    assert_eq!(read_tof_indices(2, 2, &words, &vec![0, 1, 2]).unwrap(), vec![2, 1]);
    assert_eq!(read_tof_indices(2, 2, &words, &vec![0, 2, 2]).unwrap(), vec![2, 4]);
    assert_eq!(read_tof_indices(2, 2, &words, &vec![0, 0, 2]).unwrap(), vec![2, 4]);
    assert_eq!(
        read_tof_indices(2, 3, &words, &vec![0, 1, 3]).err(),
        Some(FrameReaderError::CorruptFrame)
    );
    // An end offset below the start offset delimits no peak.
    assert_eq!(read_tof_indices(1, 0, &words, &vec![5, 2]).unwrap(), Vec::<u32>::new());
    assert_eq!(read_tof_indices(2, 2, &words, &vec![1, 2, 1]).unwrap(), vec![1]);
    // Scans may overlap: each is read from its own start.
    assert_eq!(read_tof_indices(2, 2, &words, &vec![0, 2, 2]).unwrap(), vec![2, 4]);
    assert_eq!(read_tof_indices(2, 4, &words, &vec![0, 2, 1]).unwrap(), vec![2, 4]);
    assert_eq!(read_tof_indices(0, 0, &words, &vec![]).unwrap(), Vec::<u32>::new());
}

#[test]
fn little_endian_bytes_become_words() {
    let bytes: Vec<u8> = vec![1, 0, 0, 0, 3, 0, 0, 0, 0x78, 0x56, 0x34, 0x12, 0xff, 0xff];
    let words = TdfBlob::from_le_bytes(&bytes);
    assert_eq!(words.len(), 3);
    assert_eq!(words.get(0), Some(1));
    assert_eq!(words.get(1), Some(3));
    assert_eq!(words.get(2), Some(0x12345678));
    assert_eq!(words.get(3), None);
    let full = TdfBlob::from_le_bytes(&vec![0xff, 0xff, 0xff, 0xff]);
    assert_eq!(full.get(0), Some(u32::MAX));
    assert!(TdfBlob::from_le_bytes(&vec![1, 2, 3]).is_empty());
    let reader = reader_of(&[0]);
    let frame = reader
        .get(0, &TdfBlob::from_le_bytes(&vec![1, 0, 0, 0, 3, 0, 0, 0, 7, 0, 0, 0]))
        .unwrap();
    assert_eq!(frame.tof_indices, vec![2]);
    assert_eq!(frame.intensities, vec![7]);
}

#[test]
fn get_all_matches_get() {
    let reader = reader_of(&[0, 8, 0]);
    let blobs = vec![blob(&[1, 3, 7]), blob(&[1, 3]), blob(&[2, 4, 5, 9, 3, 11])];
    let all = reader.get_all(&blobs);
    assert_eq!(all.len(), reader.len());
    for i in 0..reader.len() {
        assert_eq!(all[i], reader.get(i, &blobs[i]));
    }
    assert_eq!(all[0].as_ref().unwrap().index, 1);
    assert_eq!(all[1], Err(FrameReaderError::CorruptFrame));
    assert_eq!(all[2].as_ref().unwrap().tof_indices, vec![4, 7]);
    assert!(reader_of(&[]).get_all(&vec![]).is_empty());
}

#[test]
fn frames_by_level_keep_table_order() {
    let reader = reader_of(&[0, 8, 9, 0, 5]);
    let blobs = vec![
        blob(&[1, 1, 10]),
        blob(&[1, 2, 20]),
        blob(&[1, 3, 30]),
        blob(&[1, 4, 40]),
        blob(&[1, 5, 50]),
    ];
    assert_eq!(reader.positions_of_level(MSLevel::MS1), vec![0, 3]);
    assert_eq!(reader.positions_of_level(MSLevel::MS2), vec![1, 2]);
    assert_eq!(reader.positions_of_level(MSLevel::Unknown), vec![4]);
    let ms1 = reader.get_all_ms1(&blobs);
    assert_eq!(ms1.len(), 2);
    assert_eq!(ms1[0].as_ref().unwrap().index, 1);
    assert_eq!(ms1[0].as_ref().unwrap().intensities, vec![10]);
    assert_eq!(ms1[1].as_ref().unwrap().index, 4);
    assert_eq!(ms1[1].as_ref().unwrap().intensities, vec![40]);
    let ms2 = reader.get_all_ms2(&blobs);
    assert_eq!(ms2.len(), 2);
    assert_eq!(ms2[0].as_ref().unwrap().index, 2);
    assert_eq!(ms2[0].as_ref().unwrap().tof_indices, vec![1]);
    assert_eq!(ms2[1].as_ref().unwrap().index, 3);
    assert_eq!(ms2[1].as_ref().unwrap().tof_indices, vec![2]);
}

#[test]
fn filter_gives_passing_positions_in_order() {
    let reader = reader_of(&[0, 8, 9, 0, 5]);
    assert_eq!(reader.filter(|_| true), vec![0, 1, 2, 3, 4]);
    assert_eq!(reader.filter(|_| false), Vec::<usize>::new());
    assert_eq!(reader.filter(|frame| frame.ms_level == MSLevel::MS2), vec![1, 2]);
    assert_eq!(reader.filter(|frame| frame.index % 2 == 1), vec![0, 2, 4]);
    // The predicate sees frames without peaks.
    assert_eq!(reader.filter(|frame| frame.tof_indices.is_empty()).len(), 5);
}

#[test]
fn parallel_filter_agrees_with_filter() {
    let mut levels = Vec::new();
    for k in 0..500usize {
        levels.push(if k % 3 == 0 { 0u8 } else if k % 3 == 1 { 8 } else { 5 });
    }
    let reader = reader_of(&levels);
    let ms1 = reader.parallel_filter(|frame| frame.ms_level == MSLevel::MS1);
    assert_eq!(ms1.len(), 167);
    assert_eq!(ms1[0], 0);
    assert_eq!(ms1[1], 3);
    assert_eq!(ms1[166], 498);
    assert_eq!(ms1, reader.filter(|frame| frame.ms_level == MSLevel::MS1));
    assert_eq!(ms1, reader.positions_of_level(MSLevel::MS1));
    assert_eq!(reader.parallel_filter(|_| true).len(), 500);
    assert!(reader.parallel_filter(|_| false).is_empty());
    assert_eq!(reader.parallel_filter(|frame| frame.index > 498), vec![498, 499]);
}
